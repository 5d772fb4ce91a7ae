//! The run of a harness as a request asks for it: what it may say, when it is refused,
//! and what it is answered.
use crate::harness::{
    harness_settling, launching, materialising, written_view, HarnessLaunch, HarnessLaunchView,
    HarnessStart, HarnessStartView, OutFile, OutFileView, Unwritten, UnwrittenView,
};
use crate::json::{
    field, members, named, optional_text, optional_text_to_json, text_field, texts_json,
    texts_to_json, with_names, Fields, Json, JsonView, Member,
};
use crate::kernel::{register_read, KernelView, RealKernel};
use crate::launch::{
    exit_label, fence_text, launch_args, launch_line, mcp_json, mcp_text, settings_json,
    ExitReason, HarnessConfig, HarnessRun, REDACTED_TOKEN,
};
use crate::model::{all, dup_opt, opt, Duplicate};
use crate::outside::{fresh_key_text, fresh_uuid, is_key_text, is_uuid_text, now_ms};
use crate::principal::CtxView;
use crate::reading::text_if_there;
use crate::register::{Register, RegisterView};
use crate::rpc::{
    bad, bad_params, ctx_for, ctx_of, internal, kerr, rpc_outcome, told, RpcError, RpcErrorView,
    E_INTERNAL,
};
use crate::settings::{
    coder_kind, harness_prompt, harness_system_suffix, prompt_with, said, system_added,
    HarnessSettings,
};
use crate::stops::is_stopped;
use crate::task::{status_name, status_text, Task, TaskView};
use crate::text::{cat, cat3, same};
use crate::wire::{optional_real, optional_real_to_json, step_status_json, step_status_to_json};
use vstd::prelude::*;

verus! {

/// What a request for a run may say.
#[derive(Debug)]
pub struct HarnessRunParams {
    pub task_id: String,
    /// The harness, as the step names it.
    pub name: String,
    /// Whether the launch is only shown.
    pub dry_run: bool,
    /// Whether the workspace is left behind.
    pub keep: bool,
}

/// What a [`HarnessRunParams`] says.
#[verifier::ext_equal]
pub struct HarnessRunParamsView {
    pub task_id: Seq<char>,
    pub name: Seq<char>,
    pub dry_run: bool,
    pub keep: bool,
}

impl View for HarnessRunParams {
    type V = HarnessRunParamsView;

    open spec fn view(&self) -> HarnessRunParamsView {
        HarnessRunParamsView {
            task_id: self.task_id@,
            name: self.name@,
            dry_run: self.dry_run,
            keep: self.keep,
        }
    }
}

/// The first of what the daemon alone may say that a request says.
pub open spec fn forbidden_in(p: JsonView) -> Option<Seq<char>> {
    if field(p, "bin"@) is Some {
        Some("bin"@)
    } else if field(p, "binary"@) is Some {
        Some("binary"@)
    } else if field(p, "model"@) is Some {
        Some("model"@)
    } else if field(p, "timeout_secs"@) is Some {
        Some("timeout_secs"@)
    } else if field(p, "timeout"@) is Some {
        Some("timeout"@)
    } else {
        None
    }
}

/// What is said of a request that names what the daemon alone may say.
pub open spec fn forbidden_text(name: Seq<char>) -> Seq<char> {
    "harness.run does not take `"@ + name
        + "`: the harness binary, model and timeout are daemon configuration (vkd --harness-bin, --harness-model, --harness-timeout-secs)"@
}

/// Whether a name is one that a request for a run may have.
pub open spec fn run_name(name: Seq<char>) -> bool {
    name == "task_id"@ || name == "name"@ || name == "dry_run"@ || name == "keep"@
}

/// A truth value, false where it is left out.
pub open spec fn flag_in(p: JsonView, name: Seq<char>) -> Option<bool> {
    match field(p, name) {
        None => Some(false),
        Some(JsonView::Bool(b)) => Some(b),
        Some(_) => None,
    }
}

/// The names of what a request for a run has, in their order.
pub open spec fn run_names() -> Seq<Seq<char>> {
    seq!["task_id"@, "name"@, "dry_run"@, "keep"@]
}

/// What is wrong with a member of a request for a run.
pub enum FaultView {
    /// It may not have one of this name.
    Unknown(Seq<char>),
    /// It is not what its name asks for.
    Value,
}

/// Whether a value is what a request for a run has under this name.
pub open spec fn fits(name: Seq<char>, v: JsonView) -> bool {
    if name == "task_id"@ {
        v is Text
    } else if name == "name"@ {
        v is Text || v is Null
    } else {
        v is Bool
    }
}

/// The first member that a request for a run may not have, or not so.
pub open spec fn first_fault(ms: Seq<(Seq<char>, JsonView)>) -> Option<FaultView>
    decreases ms.len(),
{
    if ms.len() == 0 {
        None
    } else if !run_name(ms[0].0) {
        Some(FaultView::Unknown(ms[0].0))
    } else if !fits(ms[0].0, ms[0].1) {
        Some(FaultView::Value)
    } else {
        first_fault(ms.drop_first())
    }
}

/// What a request for a run says, if it says that much.
pub open spec fn run_asked(p: JsonView, engine: Seq<char>) -> Option<HarnessRunParamsView> {
    match (
        text_field(p, "task_id"@),
        text_if_there(p, "name"@),
        flag_in(p, "dry_run"@),
        flag_in(p, "keep"@),
    ) {
        (Some(task_id), Ok(name), Some(dry_run), Some(keep)) => Some(
            HarnessRunParamsView {
                task_id,
                name: match name {
                    Some(n) => n,
                    None => coder_kind(engine),
                },
                dry_run,
                keep,
            },
        ),
        _ => None,
    }
}

/// What is said of a request for a run that says something else.
pub open spec fn run_refused(why: Seq<char>) -> RpcErrorView {
    bad_params("harness.run takes task_id, name, dry_run and keep, nothing else: "@ + why)
}

/// What a request for a run says, or why it is refused: `words` is what its reader has
/// against a value in it.
pub open spec fn run_params_of(p: JsonView, engine: Seq<char>, words: Seq<char>) -> Result<
    HarnessRunParamsView,
    RpcErrorView,
> {
    let v = named(p, run_names(), 1);
    match forbidden_in(p) {
        Some(name) => Err(bad_params(forbidden_text(name))),
        None => match p {
            JsonView::Object(ms) => match first_fault(ms) {
                Some(FaultView::Unknown(name)) => Err(
                    run_refused(
                        "unknown field `"@ + name
                            + "`, expected one of `task_id`, `name`, `dry_run`, `keep`"@,
                    ),
                ),
                Some(FaultView::Value) => Err(run_refused(words)),
                None => match run_asked(p, engine) {
                    Some(params) => Ok(params),
                    None => Err(run_refused("missing field `task_id`"@)),
                },
            },
            _ => match run_asked(v, engine) {
                Some(params) => Ok(params),
                None => Err(run_refused(words)),
            },
        },
    }
}

fn find_forbidden(p: &Json) -> (r: Option<&'static str>)
    ensures
        match r {
            Some(name) => forbidden_in(p@) == Some(name@),
            None => forbidden_in(p@) is None,
        },
{
    if p.get("bin").is_some() {
        Some("bin")
    } else if p.get("binary").is_some() {
        Some("binary")
    } else if p.get("model").is_some() {
        Some("model")
    } else if p.get("timeout_secs").is_some() {
        Some("timeout_secs")
    } else if p.get("timeout").is_some() {
        Some("timeout")
    } else {
        None
    }
}

fn read_flag(p: &Json, name: &str) -> (r: Option<bool>)
    ensures
        r == flag_in(p@, name@),
{
    match p.get(name) {
        None => Some(false),
        Some(Json::Bool(b)) => Some(*b),
        Some(_) => None,
    }
}

enum Fault {
    Unknown(String),
    Value,
}

impl View for Fault {
    type V = FaultView;

    closed spec fn view(&self) -> FaultView {
        match self {
            Fault::Unknown(name) => FaultView::Unknown(name@),
            Fault::Value => FaultView::Value,
        }
    }
}

fn is_fit(name: &str, v: &Json) -> (r: bool)
    ensures
        r == fits(name@, v@),
{
    match v {
        Json::Text(_) => same(name, "task_id") || same(name, "name"),
        Json::Null => !same(name, "task_id") && same(name, "name"),
        Json::Bool(_) => !same(name, "task_id") && !same(name, "name"),
        _ => false,
    }
}

fn find_fault(v: &Vec<Member>) -> (r: Option<Fault>)
    ensures
        opt(r) == first_fault(members(v@)),
{
    let ghost ms = members(v@);
    let mut i: usize = 0;
    assert(ms.skip(0) =~= ms);
    while i < v.len()
        invariant
            i <= v@.len(),
            ms == members(v@),
            first_fault(ms) == first_fault(ms.skip(i as int)),
        decreases v@.len() - i,
    {
        let ghost rest = ms.skip(i as int);
        assert(rest[0] == (v@[i as int].name@, v@[i as int].value@));
        let n = v[i].name.as_str();
        if !(same(n, "task_id") || same(n, "name") || same(n, "dry_run") || same(n, "keep")) {
            return Some(Fault::Unknown(n.to_owned()));
        }
        if !is_fit(n, &v[i].value) {
            return Some(Fault::Value);
        }
        assert(rest.drop_first() =~= ms.skip(i + 1));
        i += 1;
    }
    None
}

fn refuse_run(why: &str) -> (r: RpcError)
    ensures
        r@ == run_refused(why@),
{
    let s = cat("harness.run takes task_id, name, dry_run and keep, nothing else: ", why);
    bad(s.as_str())
}

/// What a request for a run says; `words` is what its reader has against it.
pub fn read_run_params(p: &Json, engine: &str, words: &str) -> (r: Result<
    HarnessRunParams,
    RpcError,
>)
    ensures
        rpc_outcome(r) == run_params_of(p@, engine@, words@),
{
    if let Some(name) = find_forbidden(p) {
        let s = cat3(
            "harness.run does not take `",
            name,
            "`: the harness binary, model and timeout are daemon configuration (vkd --harness-bin, --harness-model, --harness-timeout-secs)",
        );
        return Err(bad(s.as_str()));
    }
    if let Json::Object(ms) = p {
        assert(p@->Object_0 =~= members(ms@));
        return match find_fault(ms) {
            Some(Fault::Unknown(name)) => {
                let why = cat3(
                    "unknown field `",
                    name.as_str(),
                    "`, expected one of `task_id`, `name`, `dry_run`, `keep`",
                );
                Err(refuse_run(why.as_str()))
            },
            Some(Fault::Value) => Err(refuse_run(words)),
            None => match read_run(p, engine) {
                Some(params) => Ok(params),
                None => Err(refuse_run("missing field `task_id`")),
            },
        };
    }
    let names = vec!["task_id", "name", "dry_run", "keep"];
    assert(all(names@) =~= run_names());
    let v = with_names(p, &names, 1);
    match read_run(&v, engine) {
        Some(params) => Ok(params),
        None => Err(refuse_run(words)),
    }
}

fn read_run(v: &Json, engine: &str) -> (r: Option<HarnessRunParams>)
    ensures
        opt(r) == run_asked(v@, engine@),
{
    let name = match v.get("name") {
        None => cat(engine, "-code"),
        Some(Json::Null) => cat(engine, "-code"),
        Some(Json::Text(s)) => s.dup(),
        Some(_) => return None,
    };
    match (v.text_at("task_id"), read_flag(v, "dry_run"), read_flag(v, "keep")) {
        (Some(id), Some(dry_run), Some(keep)) => Some(
            HarnessRunParams { task_id: id.dup(), name, dry_run, keep },
        ),
        _ => None,
    }
}

/// Why no run can be launched from here, if none can: there is no program, or no way
/// for it to call back.
pub open spec fn unready(
    dry_run: bool,
    binary: Result<Seq<char>, Seq<char>>,
    mcp_server: Seq<char>,
    mcp_there: bool,
) -> Option<Seq<char>> {
    match binary {
        Err(why) => Some(why),
        Ok(_) => if !dry_run && !mcp_there {
            Some(
                "no vk-mcp next to this daemon at "@ + mcp_server
                    + ": the harness would run without its kernel channel"@,
            )
        } else {
            None
        },
    }
}

/// The program to launch, unless no run can be launched from here. Asked before
/// anything is leased.
pub fn run_ready(
    dry_run: bool,
    binary: Result<String, String>,
    mcp_server: &str,
    mcp_there: bool,
) -> (r: Result<String, RpcError>)
    ensures
        match unready(dry_run, said(binary), mcp_server@, mcp_there) {
            Some(why) => r is Err && r->Err_0@ == (RpcErrorView {
                code: E_INTERNAL,
                message: why,
            }),
            None => r is Ok && said(binary) == Ok::<Seq<char>, Seq<char>>(r->Ok_0@),
        },
{
    let b = match binary {
        Ok(b) => b,
        Err(why) => return Err(internal(why.as_str())),
    };
    if !dry_run && !mcp_there {
        let why = cat3(
            "no vk-mcp next to this daemon at ",
            mcp_server,
            ": the harness would run without its kernel channel",
        );
        return Err(internal(why.as_str()));
    }
    Ok(b)
}

/// The launch that a daemon's settings make of a run.
pub fn run_config(
    settings: &HarnessSettings,
    binary: &str,
    endpoint: &str,
    mcp_server: &str,
    workspace: &str,
    config_dir: &str,
    token: &str,
    prompt: &str,
    suffix: &Option<String>,
    system_suffix: &Option<String>,
    windows: bool,
) -> (r: HarnessConfig)
    ensures
        r.binary@ == binary@,
        r.workspace@ == workspace@,
        r.config_dir@ == config_dir@,
        r.lease_token@ == token@,
        r.endpoint@ == endpoint@,
        r.mcp_server@ == mcp_server@,
        r.prompt@ == prompt_with(prompt@, opt(*suffix)),
        opt(r.model) == opt(settings.model),
        opt(r.system_suffix) == system_added(opt(*system_suffix)),
        r.timeout_ms == settings.timeout_ms,
        r.windows == windows,
{
    HarnessConfig {
        binary: binary.to_owned(),
        workspace: workspace.to_owned(),
        config_dir: config_dir.to_owned(),
        lease_token: token.to_owned(),
        endpoint: endpoint.to_owned(),
        mcp_server: mcp_server.to_owned(),
        prompt: harness_prompt(prompt, suffix),
        model: dup_opt(&settings.model),
        system_suffix: harness_system_suffix(system_suffix),
        timeout_ms: settings.timeout_ms,
        windows,
    }
}

/// What a launch that is only shown is answered: everything but the token.
pub open spec fn shown_json(task_id: Seq<char>, cfg: HarnessConfig) -> JsonView {
    JsonView::Object(
        seq![
            ("dry_run"@, JsonView::Bool(true)),
            ("task_id"@, JsonView::Text(task_id)),
            ("workspace"@, JsonView::Text(cfg.workspace@)),
            ("config_dir"@, JsonView::Text(cfg.config_dir@)),
            (
                "launch_line"@,
                texts_json(
                    launch_args(
                        cfg.binary@,
                        cfg.prompt@,
                        cfg.config_dir@,
                        opt(cfg.model),
                        opt(cfg.system_suffix),
                        cfg.windows,
                    ),
                ),
            ),
            (
                "mcp_json"@,
                JsonView::Text(mcp_text(cfg.mcp_server@, cfg.endpoint@, REDACTED_TOKEN@)),
            ),
            ("settings_json"@, JsonView::Text(fence_text(cfg.config_dir@))),
        ],
    )
}

/// What a launch that is only shown is answered.
pub fn show_run(task_id: &str, cfg: &HarnessConfig) -> (r: Json)
    ensures
        r@ == shown_json(task_id@, *cfg),
{
    let mut f = Fields::new();
    f.put("dry_run", Json::Bool(true));
    f.put_text("task_id", task_id);
    f.put_text("workspace", cfg.workspace.as_str());
    f.put_text("config_dir", cfg.config_dir.as_str());
    let line = launch_line(cfg);
    f.put("launch_line", texts_to_json(&line));
    let mcp = mcp_json(cfg, REDACTED_TOKEN);
    f.put_text("mcp_json", mcp.as_str());
    let fence = settings_json(cfg);
    f.put_text("settings_json", fence.as_str());
    assert(f@ =~= shown_json(task_id@, *cfg)->Object_0);
    f.object()
}

/// What stands for a run that never started: nothing was contained, and nothing was
/// reached.
pub fn failed_run() -> (r: HarnessRun)
    ensures
        r.exit_code is None,
        r.exit_reason is NotStarted,
        r.stdout_json@ == ""@,
        r.outcome is None,
        r.connections@ == Seq::<String>::empty(),
        r.samples == 0,
        r.duration_ms == 0,
        !r.governed,
{
    HarnessRun {
        exit_code: None,
        exit_reason: ExitReason::NotStarted,
        stdout_json: "".to_owned(),
        outcome: None,
        connections: Vec::new(),
        samples: 0,
        duration_ms: 0,
        governed: false,
    }
}

/// The context of this node's own machine.
pub open spec fn machine_ctx<A>(k: KernelView<A>, now: u64) -> CtxView {
    ctx_of(k, None, now)->Ok_0
}

/// Starting a run: what the kernel does, and what the request is told where it refuses.
pub open spec fn run_starting<A>(
    k: KernelView<A>,
    now: u64,
    params: HarnessRunParamsView,
    timeout_ms: u64,
    run: Seq<char>,
    token: Seq<char>,
) -> (KernelView<A>, Result<HarnessStartView, RpcErrorView>) {
    let (after, r) = launching(
        k,
        machine_ctx(k, now),
        params.task_id,
        params.name,
        timeout_ms,
        run,
        token,
    );
    (
        after,
        match r {
            Ok(start) => Ok(start),
            Err(e) => Err(told(e)),
        },
    )
}

/// Taking in whether the workspace of a run was written: what the kernel does, and what
/// the request is told where it was not.
pub open spec fn run_writing<A>(
    k: KernelView<A>,
    now: u64,
    start: HarnessStartView,
    written: Result<(), UnwrittenView>,
) -> (KernelView<A>, Result<HarnessLaunchView, RpcErrorView>) {
    let (after, r) = materialising(k, machine_ctx(k, now), start, written);
    (
        after,
        match r {
            Ok(launch) => Ok(launch),
            Err(e) => Err(told(e)),
        },
    )
}

/// What the register tells of a run's artefacts: the last one, and how many there are.
pub open spec fn artefacts_told(reg: Option<RegisterView>) -> (Option<Seq<char>>, nat) {
    match reg {
        Some(r) => (
            if r.artefacts.len() > 0 {
                Some(r.artefacts.last().hash)
            } else {
                None
            },
            r.artefacts.len(),
        ),
        None => (None, 0),
    }
}

/// What a run that ended is answered.
pub open spec fn run_json(
    t: TaskView,
    step_index: nat,
    reg: Option<RegisterView>,
    run: HarnessRun,
    keep: bool,
    error: Option<Seq<char>>,
) -> JsonView {
    JsonView::Object(
        seq![
            ("task_id"@, JsonView::Text(t.id)),
            ("status"@, JsonView::Text(status_text(t.status))),
            (
                "step_status"@,
                if step_index < t.steps.len() {
                    step_status_json(t.steps[step_index as int].status)
                } else {
                    JsonView::Null
                },
            ),
            ("exit"@, JsonView::Text(exit_label(run.exit_reason))),
            ("governed"@, JsonView::Bool(run.governed)),
            ("connections"@, texts_json(all(run.connections@))),
            ("samples"@, JsonView::Unsigned(run.samples as nat)),
            ("duration_ms"@, JsonView::Unsigned(run.duration_ms as nat)),
            ("artefact_hash"@, optional_text(artefacts_told(reg).0)),
            ("artefacts"@, JsonView::Unsigned(artefacts_told(reg).1)),
            (
                "cost_list_usd"@,
                match run.outcome {
                    Some(o) => optional_real(opt(o.total_cost_usd)),
                    None => JsonView::Null,
                },
            ),
            (
                "num_turns"@,
                match run.outcome {
                    Some(o) => JsonView::Unsigned(o.num_turns as nat),
                    None => JsonView::Null,
                },
            ),
            (
                "permission_denials"@,
                match run.outcome {
                    Some(o) => texts_json(all(o.permission_denials@)),
                    None => texts_json(Seq::empty()),
                },
            ),
            ("kept"@, JsonView::Bool(keep)),
            ("error"@, optional_text(error)),
        ],
    )
}

/// Settling a run, whatever it was: what the kernel does, and what the request is
/// answered.
pub open spec fn run_settling<A>(
    k: KernelView<A>,
    now: u64,
    task_id: Seq<char>,
    launch: HarnessLaunchView,
    run: HarnessRun,
    out: Seq<OutFileView>,
    keep: bool,
    error: Option<Seq<char>>,
) -> (KernelView<A>, Result<JsonView, RpcErrorView>) {
    let ctx = machine_ctx(k, now);
    let (after, r) = harness_settling(k, ctx, task_id, launch, run, out);
    match r {
        Err(e) => (after, Err(told(e))),
        Ok(t) => {
            let reg = match register_read(after.store, ctx, t.register) {
                Ok(reg) => Some(reg),
                Err(_) => None,
            };
            (after, Ok(run_json(t, launch.step_index, reg, run, keep, error)))
        },
    }
}

fn run_to_json(
    t: &Task,
    step_index: usize,
    reg: &Option<Register>,
    run: &HarnessRun,
    keep: bool,
    error: &Option<String>,
) -> (r: Json)
    ensures
        r@ == run_json(t@, step_index as nat, opt(*reg), *run, keep, opt(*error)),
{
    let mut f = Fields::new();
    f.put_text("task_id", t.id.as_str());
    f.put_text("status", status_name(t.status));
    let step_status = if step_index < t.steps.len() {
        step_status_to_json(&t.steps[step_index].status)
    } else {
        Json::Null
    };
    f.put("step_status", step_status);
    let exit = run.exit_reason.label();
    f.put_text("exit", exit.as_str());
    f.put("governed", Json::Bool(run.governed));
    f.put("connections", texts_to_json(&run.connections));
    f.put("samples", Json::Unsigned(run.samples as u64));
    f.put("duration_ms", Json::Unsigned(run.duration_ms));
    let (hash, count): (Option<String>, usize) = match reg {
        Some(reg) => {
            let n: usize = reg.artefacts.len();
            assert(all(reg.artefacts@).len() == n);
            if n > 0 {
                (Some(reg.artefacts[n - 1].hash.dup()), n)
            } else {
                (None, n)
            }
        },
        None => (None, 0),
    };
    f.put("artefact_hash", optional_text_to_json(&hash));
    f.put("artefacts", Json::Unsigned(count as u64));
    match &run.outcome {
        Some(o) => {
            f.put("cost_list_usd", optional_real_to_json(&o.total_cost_usd));
            f.put("num_turns", Json::Unsigned(o.num_turns));
            f.put("permission_denials", texts_to_json(&o.permission_denials));
        },
        None => {
            f.put("cost_list_usd", Json::Null);
            f.put("num_turns", Json::Null);
            let none: Vec<String> = Vec::new();
            assert(all(none@) =~= Seq::<Seq<char>>::empty());
            f.put("permission_denials", texts_to_json(&none));
        },
    }
    f.put("kept", Json::Bool(keep));
    f.put("error", optional_text_to_json(error));
    assert(f@ =~= run_json(t@, step_index as nat, opt(*reg), *run, keep, opt(*error))->Object_0);
    f.object()
}

impl<A> RealKernel<A> {
    /// Whether what runs now is to be stopped.
    pub fn should_stop(&self) -> (r: bool)
        requires
            self.wf(),
        ensures
            r == is_stopped(self@, "node"@),
    {
        self.stopped("node")
    }

    /// Start a run at this time, under this name and with this token.
    pub fn run_start_as(
        &mut self,
        now: u64,
        params: &HarnessRunParams,
        timeout_ms: u64,
        run: &str,
        token: &str,
    ) -> (r: Result<HarnessStart, RpcError>)
        requires
            old(self).wf(),
        ensures
            final(self).wf(),
            (final(self)@, rpc_outcome(r)) == run_starting(
                old(self)@,
                now,
                params@,
                timeout_ms,
                run@,
                token@,
            ),
            r matches Ok(s) ==> s.launch.step_index < s.task.steps@.len(),
    {
        let ctx = match ctx_for(self, &None, now) {
            Ok(c) => c,
            Err(e) => return Err(e),
        };
        match self.harness_launch_as(
            &ctx,
            params.task_id.as_str(),
            params.name.as_str(),
            timeout_ms,
            run,
            token,
        ) {
            Ok(s) => Ok(s),
            Err(e) => Err(kerr(&e)),
        }
    }

    /// Start a run now, under a name and with a token that nobody has had.
    pub fn run_start(&mut self, params: &HarnessRunParams, timeout_ms: u64) -> (r: Result<
        HarnessStart,
        RpcError,
    >)
        requires
            old(self).wf(),
        ensures
            final(self).wf(),
            exists|now: u64, run: Seq<char>, token: Seq<char>|
                is_uuid_text(run) && is_key_text(token) && (final(self)@, rpc_outcome(r))
                    == #[trigger] run_starting(
                    old(self)@,
                    now,
                    params@,
                    timeout_ms,
                    run,
                    token,
                ),
            r matches Ok(s) ==> s.launch.step_index < s.task.steps@.len(),
    {
        let now: u64 = now_ms();
        let run = fresh_uuid();
        let token = fresh_key_text();
        self.run_start_as(now, params, timeout_ms, run.as_str(), token.as_str())
    }

    /// Take in at this time that the workspace of a run was written, or why it was not.
    pub fn run_written(
        &mut self,
        now: u64,
        start: HarnessStart,
        written: Result<(), Unwritten>,
    ) -> (r: Result<HarnessLaunch, RpcError>)
        requires
            old(self).wf(),
            start.launch.step_index < start.task.steps@.len(),
        ensures
            final(self).wf(),
            (final(self)@, rpc_outcome(r)) == run_writing(
                old(self)@,
                now,
                start@,
                written_view(written),
            ),
    {
        let ctx = match ctx_for(self, &None, now) {
            Ok(c) => c,
            Err(e) => return Err(e),
        };
        match self.harness_materialised(&ctx, start, written) {
            Ok(launch) => Ok(launch),
            Err(e) => Err(kerr(&e)),
        }
    }

    /// Settle a run at this time, whatever it was.
    pub fn run_settle(
        &mut self,
        now: u64,
        task_id: &str,
        launch: &HarnessLaunch,
        run: &HarnessRun,
        out: &Vec<OutFile>,
        keep: bool,
        error: &Option<String>,
    ) -> (r: Result<Json, RpcError>)
        requires
            old(self).wf(),
            old(self)@.store.tasks.contains_key(task_id@) ==> launch.step_index < old(
                self,
            )@.store.tasks[task_id@].steps.len(),
        ensures
            final(self).wf(),
            (final(self)@, rpc_outcome(r)) == run_settling(
                old(self)@,
                now,
                task_id@,
                launch@,
                *run,
                all(out@),
                keep,
                opt(*error),
            ),
    {
        let ctx = match ctx_for(self, &None, now) {
            Ok(c) => c,
            Err(e) => return Err(e),
        };
        let t = match self.harness_settle(&ctx, task_id, launch, run, out) {
            Ok(t) => t,
            Err(e) => return Err(kerr(&e)),
        };
        let reg = match self.read_register(&ctx, t.register.as_str()) {
            Ok(reg) => Some(reg),
            Err(_) => None,
        };
        Ok(run_to_json(&t, launch.step_index, &reg, run, keep, error))
    }
}

/// A request cannot choose what is executed: one that names the program, the model or
/// the time is refused.
pub proof fn request_never_names_the_program(p: JsonView, engine: Seq<char>, words: Seq<char>)
    requires
        run_params_of(p, engine, words) is Ok,
    ensures
        field(p, "bin"@) is None,
        field(p, "binary"@) is None,
        field(p, "model"@) is None,
        field(p, "timeout_secs"@) is None,
        field(p, "timeout"@) is None,
{
}

proof fn unknown_is_a_fault(ms: Seq<(Seq<char>, JsonView)>, i: int)
    requires
        0 <= i < ms.len(),
        !run_name(ms[i].0),
    ensures
        first_fault(ms) is Some,
    decreases i,
{
    if i > 0 {
        assert(ms.drop_first()[i - 1] == ms[i]);
        unknown_is_a_fault(ms.drop_first(), i - 1);
    }
}

proof fn only_fault_is_found(ms: Seq<(Seq<char>, JsonView)>, i: int)
    requires
        0 <= i < ms.len(),
        !run_name(ms[i].0),
        forall|j: int|
            0 <= j < i ==> run_name((#[trigger] ms[j]).0) && fits(ms[j].0, ms[j].1),
    ensures
        first_fault(ms) == Some(FaultView::Unknown(ms[i].0)),
    decreases i,
{
    if i > 0 {
        let rest = ms.drop_first();
        assert(rest[i - 1] == ms[i]);
        assert forall|j: int| 0 <= j < i - 1 implies run_name((#[trigger] rest[j]).0) && fits(
            rest[j].0,
            rest[j].1,
        ) by {
            assert(rest[j] == ms[j + 1]);
        }
        assert(run_name(ms[0].0) && fits(ms[0].0, ms[0].1));
        only_fault_is_found(rest, i - 1);
    }
}

/// A request that says anything else is refused too, and is told what, where that is the
/// first thing against it.
pub proof fn unknown_parameter_is_refused(
    p: JsonView,
    engine: Seq<char>,
    words: Seq<char>,
    i: int,
)
    requires
        p is Object,
        0 <= i < p->Object_0.len(),
        !run_name(p->Object_0[i].0),
    ensures
        run_params_of(p, engine, words) is Err,
        forbidden_in(p) is None && (forall|j: int|
            0 <= j < i ==> run_name((#[trigger] p->Object_0[j]).0) && fits(
                p->Object_0[j].0,
                p->Object_0[j].1,
            )) ==> run_params_of(p, engine, words) == Err::<HarnessRunParamsView, RpcErrorView>(
            run_refused(
                "unknown field `"@ + p->Object_0[i].0
                    + "`, expected one of `task_id`, `name`, `dry_run`, `keep`"@,
            ),
        ),
{
    let ms = p->Object_0;
    unknown_is_a_fault(ms, i);
    if forall|j: int| 0 <= j < i ==> run_name((#[trigger] ms[j]).0) && fits(ms[j].0, ms[j].1) {
        only_fault_is_found(ms, i);
    }
}

/// A launch that is shown tells nothing of a token: it is the same whatever the token
/// is.
pub proof fn shown_launch_has_no_token(
    task_id: Seq<char>,
    a: HarnessConfig,
    b: HarnessConfig,
)
    requires
        a.binary@ == b.binary@,
        a.workspace@ == b.workspace@,
        a.config_dir@ == b.config_dir@,
        a.endpoint@ == b.endpoint@,
        a.mcp_server@ == b.mcp_server@,
        a.prompt@ == b.prompt@,
        opt(a.model) == opt(b.model),
        opt(a.system_suffix) == opt(b.system_suffix),
        a.windows == b.windows,
    ensures
        shown_json(task_id, a) == shown_json(task_id, b),
{
}

} // verus!
