//! The methods of the endpoint: what each does to the kernel, and what it answers.
use crate::adapter::{
    mock_answer, mock_tokens, plain_completion, AdapterErrorView, Arch, ArchAdapter, CompletionView,
    Engine, MockAdapter,
};
use crate::approvals::{approving, minting, APPROVAL_CHALLENGE_TTL_MS};
use crate::arches::{mounting, unmounting, Remount};
use crate::boot::record_holds;
use crate::devices::node_key_enrolling;
use crate::error::{KernelError, KernelErrorView};
use crate::harness::{
    attaching_file, file_path, session_of, FileRead, FileReadView, HarnessSession,
    HarnessSessionView,
};
use crate::json::{field, number_field, put_members, text_field, Fields, Json, JsonView};
use crate::kernel::{register_read, register_written, KernelView, RealKernel};
use crate::labels::{bottom_label, Label};
use crate::listing::{task_listing, tasks_are_listed_one_way};
use crate::manifest::ArchManifestView;
use crate::mock::{mock_manifest, mock_manifest_of, mock_spec};
use crate::model::{all, opt, verdict_view, Duplicate};
use crate::mount::MountSpec;
use crate::ns::{entry_at, resolve, tail_is_no_longer};
use crate::outside::{hex_decode, is_hex, unhex};
use crate::presence::{array_of_32, node_device_id};
use crate::principal::{ApprovalKind, Ctx, CtxView};
use crate::reading::{approval_in, read_approval, read_steps, steps_in};
use crate::register::RegisterView;
use crate::rpc::{
    against_invariant, bad, bad_params, internal, invariant_error, kerr, not_found, nothing_found,
    rpc_outcome, told, RpcError, RpcErrorView, E_INTERNAL, E_STORE,
};
use crate::scheduler::{released, settling, Releasing, ReleasingView};
use crate::screens::{
    decisions_list, decisions_to_json, entry_json, entry_to_json, tail_json, top_json, top_to_json,
};
use crate::settings::{coder_kind, mount_spec_of, remount_for, remount_of, spec_recorded, text_or};
use crate::stops::{resuming, stopping};
use crate::table::Table;
use crate::tasks::{creating, decisions_from, seen, subject_of};
use crate::text::{cat, cat3, same};
use crate::top::top_of;
use crate::wire::{
    challenge_json, challenge_to_json, register_json, register_to_json, task_json, task_list,
    task_list_to_json, task_to_json,
};
use vstd::prelude::*;

verus! {

/// What a method does to the kernel, and what it answers.
pub type Done<A> = (KernelView<A>, Result<JsonView, RpcErrorView>);

/// The text that a method needs under a name.
pub open spec fn needed(p: JsonView, name: Seq<char>) -> Result<Seq<char>, RpcErrorView> {
    match text_field(p, name) {
        Some(s) => Ok(s),
        None => Err(bad_params(name)),
    }
}

fn need<'a>(p: &'a Json, name: &str) -> (r: Result<&'a String, RpcError>)
    ensures
        match r {
            Ok(s) => needed(p@, name@) == Ok::<Seq<char>, RpcErrorView>(s@),
            Err(e) => needed(p@, name@) == Err::<Seq<char>, RpcErrorView>(e@),
        },
{
    match p.text_at(name) {
        Some(s) => Ok(s),
        None => Err(bad(name)),
    }
}

/// What is under a name, or null.
pub open spec fn under(p: JsonView, name: Seq<char>) -> JsonView {
    match field(p, name) {
        Some(v) => v,
        None => JsonView::Null,
    }
}

/// The answer of a method that was done.
pub open spec fn ok_json() -> JsonView {
    JsonView::Object(seq![("ok"@, JsonView::Bool(true))])
}

fn ok_answer() -> (r: Json)
    ensures
        r@ == ok_json(),
{
    let mut f = Fields::new();
    f.put("ok", Json::Bool(true));
    assert(f@ =~= ok_json()->Object_0);
    f.object()
}

/// An object with one text.
pub open spec fn one_text(name: Seq<char>, s: Seq<char>) -> JsonView {
    JsonView::Object(seq![(name, JsonView::Text(s))])
}

fn one_text_answer(name: &str, s: &str) -> (r: Json)
    ensures
        r@ == one_text(name@, s@),
{
    let mut f = Fields::new();
    f.put_text(name, s);
    assert(f@ =~= one_text(name@, s@)->Object_0);
    f.object()
}

/// `ns.ls`: what a path names, the root where none is given.
pub open spec fn ns_listed<A: ArchAdapter>(
    k: KernelView<A>,
    ctx: CtxView,
    p: JsonView,
    chain: Seq<JsonView>,
) -> Result<JsonView, RpcErrorView> {
    match entry_at(k, ctx, text_or(p, "path"@, "/"@)) {
        Ok(e) => Ok(entry_json(e, chain, k.store.ledger.len())),
        Err(e) => Err(told(e)),
    }
}

/// `task.create`: `words` is what the reader of the steps has against them.
pub open spec fn task_creating<A>(
    k: KernelView<A>,
    ctx: CtxView,
    p: JsonView,
    words: Seq<char>,
) -> Done<A> {
    match needed(p, "goal"@) {
        Err(e) => (k, Err(e)),
        Ok(goal) => match steps_in(under(p, "steps"@)) {
            None => (k, Err(bad_params("steps: "@ + words))),
            Some(steps) => match creating(
                k,
                ctx,
                goal,
                text_or(p, "artefact_type"@, "note"@),
                bottom_label(),
                steps,
            ) {
                (after, Ok(t)) => (after, Ok(task_json(t))),
                (after, Err(e)) => (after, Err(told(e))),
            },
        },
    }
}

/// `task.subject`: what an approval of the task must name.
pub open spec fn subject_told<A>(k: KernelView<A>, ctx: CtxView, p: JsonView) -> Result<
    JsonView,
    RpcErrorView,
> {
    match needed(p, "task_id"@) {
        Err(e) => Err(e),
        Ok(id) => match subject_of(k.store, ctx, id) {
            Ok(h) => Ok(one_text("subject_hash"@, h)),
            Err(e) => Err(told(e)),
        },
    }
}

/// `approval.challenge`: what an approval of the task must answer.
pub open spec fn challenging<A>(
    k: KernelView<A>,
    ctx: CtxView,
    p: JsonView,
    nonce: Seq<char>,
) -> Done<A> {
    match needed(p, "task_id"@) {
        Err(e) => (k, Err(e)),
        Ok(id) => match minting(k, ctx, id, APPROVAL_CHALLENGE_TTL_MS, nonce) {
            (after, Ok(c)) => (after, Ok(challenge_json(c))),
            (after, Err(e)) => (after, Err(told(e))),
        },
    }
}

/// `task.show`: a task, and what each of its steps left among the decisions.
pub open spec fn task_shown<A>(k: KernelView<A>, ctx: CtxView, p: JsonView) -> Result<
    JsonView,
    RpcErrorView,
> {
    match needed(p, "task_id"@) {
        Err(e) => Err(e),
        Ok(id) => match seen(k.store, ctx, id) {
            None => Err(nothing_found(id)),
            Some(t) => match register_read(k.store, ctx, t.register) {
                Err(e) => Err(told(e)),
                Ok(reg) => Ok(
                    JsonView::Object(
                        task_json(t)->Object_0.push(
                            (
                                "decisions"@,
                                decisions_list(decisions_from(t.steps, reg.decisions, 0, 0)),
                            ),
                        ),
                    ),
                ),
            },
        },
    }
}

/// `stop`: the node, where no scope is given.
pub open spec fn stop_asked<A>(k: KernelView<A>, ctx: CtxView, p: JsonView) -> Done<A> {
    match stopping(k, ctx, text_or(p, "scope"@, "node"@)) {
        (after, Ok(id)) => (after, Ok(one_text("stop_id"@, id))),
        (after, Err(e)) => (after, Err(told(e))),
    }
}

/// `resume`.
pub open spec fn resume_asked<A>(k: KernelView<A>, ctx: CtxView, p: JsonView) -> Done<A> {
    match needed(p, "stop_id"@) {
        Err(e) => (k, Err(e)),
        Ok(id) => match resuming(k, ctx, id) {
            (after, Ok(())) => (after, Ok(ok_json())),
            (after, Err(e)) => (after, Err(told(e))),
        },
    }
}

/// `approve`: a person's approval, and no other; `words` is what the reader of the approval
/// has against it.
pub open spec fn approve_asked<A>(
    k: KernelView<A>,
    ctx: CtxView,
    p: JsonView,
    words: Seq<char>,
) -> Done<A> {
    match approval_in(under(p, "approval"@)) {
        None => (k, Err(bad_params("approval: "@ + words))),
        Some(a) => if a.kind != ApprovalKind::Human {
            (k, Err(bad_params("only human approvals are accepted over the transport"@)))
        } else {
            match approving(k, ctx, a) {
                (after, Ok(())) => (after, Ok(ok_json())),
                (after, Err(e)) => (after, Err(told(e))),
            }
        },
    }
}

/// `device.enroll_node`: this node's own device, and no other.
pub open spec fn enroll_asked<A>(k: KernelView<A>, p: JsonView, now: u64) -> Done<A> {
    match needed(p, "device_id"@) {
        Err(e) => (k, Err(e)),
        Ok(id) => match needed(p, "vk_hex"@) {
            Err(e) => (k, Err(e)),
            Ok(digits) => if !is_hex(digits) || unhex(digits).len() != 32 {
                (k, Err(bad_params("vk_hex must be 32 bytes of hex"@)))
            } else if id != node_device_id(k.node_id) {
                (
                    k,
                    Err(
                        against_invariant(
                            "I1: only the node's own device may be enrolled over the local endpoint"@,
                        ),
                    ),
                )
            } else {
                match node_key_enrolling(k, unhex(digits), now) {
                    (after, Ok(())) => (
                        after,
                        Ok(
                            JsonView::Object(
                                seq![("ok"@, JsonView::Bool(true)), ("device_id"@, JsonView::Text(id))],
                            ),
                        ),
                    ),
                    (after, Err(e)) => (after, Err(told(e))),
                }
            },
        },
    }
}

/// How many events `ledger.tail` shows.
pub open spec fn tail_asked(p: JsonView) -> nat {
    match number_field(p, "n"@) {
        Some(n) => n,
        None => 50,
    }
}

/// `ledger.verify`.
pub open spec fn ledger_verdict<A>(k: KernelView<A>) -> JsonView {
    JsonView::Object(
        seq![
            ("ok"@, JsonView::Bool(record_holds(k))),
            ("len"@, JsonView::Unsigned(k.store.ledger.len())),
        ],
    )
}

/// Settling a release once its files were written, or could not be.
pub open spec fn release_answered<A>(
    k: KernelView<A>,
    ctx: CtxView,
    release: ReleasingView,
    written: Result<(), KernelErrorView>,
) -> Done<A> {
    match settling(
        k,
        ctx,
        release.task,
        release.step,
        false,
        released(release, written),
    ) {
        (after, Ok(t)) => (after, Ok(task_json(t))),
        (after, Err(e)) => (after, Err(told(e))),
    }
}

/// The session that a harness's call names by its token.
pub open spec fn session_asked<A>(k: KernelView<A>, p: JsonView, now: u64) -> Result<
    HarnessSessionView,
    RpcErrorView,
> {
    match needed(p, "token"@) {
        Err(e) => Err(e),
        Ok(token) => match session_of(k, token, now) {
            Ok(s) => Ok(s),
            Err(e) => Err(told(e)),
        },
    }
}

/// `harness.read_register`.
pub open spec fn harness_reading<A>(k: KernelView<A>, p: JsonView, now: u64) -> Result<
    JsonView,
    RpcErrorView,
> {
    match session_asked(k, p, now) {
        Err(e) => Err(e),
        Ok(s) => match register_read(k.store, s.ctx, s.register) {
            Ok(reg) => Ok(register_json(reg)),
            Err(e) => Err(told(e)),
        },
    }
}

/// `harness.write_decision`: the decision says whose it is.
pub open spec fn harness_deciding<A>(k: KernelView<A>, p: JsonView, now: u64) -> Done<A> {
    match session_asked(k, p, now) {
        Err(e) => (k, Err(e)),
        Ok(s) => match needed(p, "text"@) {
            Err(e) => (k, Err(e)),
            Ok(decision) => match register_read(k.store, s.ctx, s.register) {
                Err(e) => (k, Err(told(e))),
                Ok(reg) => (
                    register_written(
                        k,
                        s.ctx,
                        RegisterView {
                            decisions: reg.decisions.push("harness: "@ + decision),
                            ..reg
                        },
                    ),
                    Ok(ok_json()),
                ),
            },
        },
    }
}

/// `harness.attach_artefact`.
pub open spec fn harness_attaching<A>(
    k: KernelView<A>,
    p: JsonView,
    now: u64,
    file: FileReadView,
) -> Done<A> {
    match (needed(p, "token"@), needed(p, "kind"@), needed(p, "path"@)) {
        (Err(e), _, _) => (k, Err(e)),
        (_, Err(e), _) => (k, Err(e)),
        (_, _, Err(e)) => (k, Err(e)),
        (Ok(token), Ok(kind), Ok(path)) => match attaching_file(k, token, now, kind, path, file) {
            (after, Ok(env)) => (after, Ok(one_text("hash"@, env.hash))),
            (after, Err(e)) => (after, Err(told(e))),
        },
    }
}

/// `harness.request_approval`: a question in the register, which approves nothing.
pub open spec fn harness_asking<A>(k: KernelView<A>, p: JsonView, now: u64) -> Done<A> {
    match session_asked(k, p, now) {
        Err(e) => (k, Err(e)),
        Ok(s) => match register_read(k.store, s.ctx, s.register) {
            Err(e) => (k, Err(told(e))),
            Ok(reg) => (
                register_written(
                    k,
                    s.ctx,
                    RegisterView {
                        open_questions: reg.open_questions.push(
                            "approval requested by the harness"@,
                        ),
                        ..reg
                    },
                ),
                Ok(
                    JsonView::Object(
                        seq![("ok"@, JsonView::Bool(true)), ("requested"@, JsonView::Bool(true))],
                    ),
                ),
            ),
        },
    }
}

/// `harness.log`: the line goes to the log, and the token is held to all the same.
pub open spec fn harness_logging<A>(k: KernelView<A>, p: JsonView, now: u64) -> Result<
    JsonView,
    RpcErrorView,
> {
    match session_asked(k, p, now) {
        Err(e) => Err(e),
        Ok(_) => Ok(ok_json()),
    }
}

/// An adapter that was made for a mount. `early` is why none could be made, where that
/// was known before the mount was looked at.
pub struct Made<A> {
    pub early: Option<String>,
    pub adapter: Result<A, String>,
}

/// What a [`Made`] says.
pub struct MadeView<A> {
    pub early: Option<Seq<char>>,
    pub adapter: Result<A, Seq<char>>,
}

impl<A> View for Made<A> {
    type V = MadeView<A>;

    open spec fn view(&self) -> MadeView<A> {
        MadeView {
            early: opt(self.early),
            adapter: match self.adapter {
                Ok(a) => Ok(a),
                Err(e) => Err(e@),
            },
        }
    }
}

/// Whether an arch of this kind is made outside.
pub open spec fn made_outside(engine: Seq<char>, kind: Seq<char>) -> bool {
    kind == coder_kind(engine) || kind == "ollama"@
}

/// What a mount is answered.
pub open spec fn mounted_json(arch_id: Seq<char>, m: ArchManifestView, already: bool) -> JsonView {
    JsonView::Object(
        seq![
            ("arch_id"@, JsonView::Text(arch_id)),
            ("name"@, JsonView::Text(m.name)),
            ("governed"@, JsonView::Bool(m.governed)),
            ("already_mounted"@, JsonView::Bool(already)),
        ],
    )
}

/// What a mount does, what it answers, and the adapter that is left over.
pub type Mounted<A> = (KernelView<A>, Option<A>, Result<JsonView, RpcErrorView>);

/// Mounting an adapter that was made.
pub open spec fn adapter_mounting<A: ArchAdapter>(
    k: KernelView<A>,
    a: A,
    checked: Result<(), Seq<char>>,
    kind: Seq<char>,
    config: JsonView,
    now: u64,
) -> Mounted<A> {
    match spec_recorded(kind, config) {
        Err(e) => (k, None, Err(e)),
        Ok(spec) => match mounting(k, a, checked, spec, remount_of(kind, config), now) {
            (after, Err(why)) => (after, None, Err(bad_params(why))),
            (after, Ok(o)) => (
                after,
                o.replaced,
                Ok(mounted_json(o.arch_id, a.declared(), o.already_mounted)),
            ),
        },
    }
}

/// `arch.mount`: nothing is mounted unless a restart can bring it back.
pub open spec fn mount_asked<A: ArchAdapter>(
    k: KernelView<A>,
    engine: Seq<char>,
    p: JsonView,
    made: Option<MadeView<A>>,
    checked: Result<(), Seq<char>>,
    now: u64,
) -> Mounted<A> {
    let config = under(p, "config"@);
    match needed(p, "kind"@) {
        Err(e) => (k, None, Err(e)),
        Ok(kind) => if made_outside(engine, kind) && made is Some && made->0.early is Some {
            (k, None, Err(bad_params(made->0.early->0)))
        } else if spec_recorded(kind, config) is Err {
            (k, None, Err(spec_recorded(kind, config)->Err_0))
        } else if !made_outside(engine, kind) {
            (k, None, Err(bad_params("no arch kind "@ + kind)))
        } else {
            match made {
                None => (
                    k,
                    None,
                    Err(
                        RpcErrorView {
                            code: E_INTERNAL,
                            message: if kind == "ollama"@ {
                                "no ollama adapter"@
                            } else {
                                "no "@ + engine + " version"@
                            },
                        },
                    ),
                ),
                Some(m) => match m.adapter {
                    Err(why) => (k, None, Err(bad_params(why))),
                    Ok(a) => adapter_mounting(k, a, checked, kind, config, now),
                },
            }
        },
    }
}

/// An adapter that a mock can stand for.
pub trait FromMock: ArchAdapter + Sized {
    /// The adapter that this mock is.
    fn from_mock(m: MockAdapter) -> (r: Self)
        ensures
            r.declared() == m.manifest@,
            r.budget() == m.budget,
            answers_as_a_mock(r),
    ;
}

impl FromMock for MockAdapter {
    fn from_mock(m: MockAdapter) -> (r: Self) {
        m
    }
}

impl<E: Engine> FromMock for Arch<E> {
    fn from_mock(m: MockAdapter) -> (r: Self) {
        Arch::Mock(m)
    }
}

/// The mock that is asked for: its name, and its context.
pub open spec fn mock_asked(p: JsonView) -> Result<(Seq<char>, u32), RpcErrorView> {
    let name = text_or(p, "name"@, "mock"@);
    match number_field(p, "context_ceiling"@) {
        None => Ok((name, 4096u32)),
        Some(n) => if n <= u32::MAX {
            Ok((name, n as u32))
        } else {
            Err(bad_params("context_ceiling"@))
        },
    }
}

/// Mounting a mock that was made.
pub open spec fn mock_mounting<A: ArchAdapter>(
    k: KernelView<A>,
    a: A,
    checked: Result<(), Seq<char>>,
    m: ArchManifestView,
    budget: u32,
    now: u64,
) -> Done<A> {
    match mounting(k, a, checked, mock_spec(m, budget), Remount::Keep, now) {
        (after, Err(why)) => (after, Err(bad_params(why))),
        (after, Ok(o)) => (
            after,
            Ok(
                JsonView::Object(
                    seq![
                        ("arch_id"@, JsonView::Text(o.arch_id)),
                        ("already_mounted"@, JsonView::Bool(o.already_mounted)),
                    ],
                ),
            ),
        ),
    }
}

/// Whether an adapter is the mock of this manifest and budget.
pub open spec fn is_mock<A: ArchAdapter>(a: A, m: ArchManifestView, budget: u32) -> bool {
    &&& a.declared() == m
    &&& a.budget() == budget
    &&& answers_as_a_mock(a)
}

/// Whether an adapter counts and answers as a mock does.
pub open spec fn answers_as_a_mock<A: ArchAdapter>(a: A) -> bool {
    &&& forall|text: Seq<char>| #[trigger] a.tokens(text) == mock_tokens(text)
    &&& forall|prompt: Seq<char>, max: nat, answer: Result<CompletionView, AdapterErrorView>|
        #[trigger] a.may_answer(prompt, max, answer) <==> answer == Ok::<
            CompletionView,
            AdapterErrorView,
        >(plain_completion(mock_answer(prompt)))
}

/// Whether `arch.mount_mock` does this: the mock that is asked for is mounted.
pub open spec fn mounts_mock<A: ArchAdapter>(
    k: KernelView<A>,
    p: JsonView,
    checked: Result<(), Seq<char>>,
    now: u64,
    after: KernelView<A>,
    r: Result<JsonView, RpcErrorView>,
) -> bool {
    match mock_asked(p) {
        Err(e) => after == k && r == Err::<JsonView, RpcErrorView>(e),
        Ok((name, ceiling)) => mock_is_mounted(
            k,
            mock_manifest_of(name, ceiling),
            ceiling,
            checked,
            now,
            after,
            r,
        ),
    }
}

/// Whether mounting a mock of this manifest and budget does this.
pub open spec fn mock_is_mounted<A: ArchAdapter>(
    k: KernelView<A>,
    m: ArchManifestView,
    budget: u32,
    checked: Result<(), Seq<char>>,
    now: u64,
    after: KernelView<A>,
    r: Result<JsonView, RpcErrorView>,
) -> bool {
    exists|a: A| #[trigger]
        is_mock(a, m, budget) && (after, r) == mock_mounting(k, a, checked, m, budget, now)
}

/// `arch.unmount`.
pub open spec fn unmount_asked<A>(k: KernelView<A>, p: JsonView, now: u64) -> Mounted<A> {
    match needed(p, "arch_id"@) {
        Err(e) => (k, None, Err(e)),
        Ok(id) => {
            let (after, removed) = unmounting(k, id, now);
            (after, removed, Ok(ok_json()))
        },
    }
}

/// A page that a link is asked for.
#[derive(Debug)]
pub enum WebLink {
    /// Where a passkey is enrolled.
    Enroll,
    /// Where a task is approved, and what the approval must name.
    Approve { task_id: String, subject: String },
}

/// What a [`WebLink`] says.
pub enum WebLinkView {
    Enroll,
    Approve { task_id: Seq<char>, subject: Seq<char> },
}

impl View for WebLink {
    type V = WebLinkView;

    open spec fn view(&self) -> WebLinkView {
        match self {
            WebLink::Enroll => WebLinkView::Enroll,
            WebLink::Approve { task_id, subject } => WebLinkView::Approve {
                task_id: task_id@,
                subject: subject@,
            },
        }
    }
}

/// `web.link`: a link to enrol a passkey is a person's to ask for, and one to approve a
/// task is made only while the task waits for that.
pub open spec fn link_asked<A>(
    k: KernelView<A>,
    ctx: Result<CtxView, RpcErrorView>,
    p: JsonView,
    web: Option<Seq<char>>,
) -> Result<WebLinkView, RpcErrorView> {
    if web is None {
        Err(
            RpcErrorView {
                code: E_STORE,
                message: "this daemon serves no web pages: start vkd with --web-port"@,
            },
        )
    } else {
        match ctx {
            Err(e) => Err(e),
            Ok(ctx) => match needed(p, "page"@) {
                Err(e) => Err(e),
                Ok(page) => if page == "enroll"@ {
                    if ctx.principal is Human {
                        Ok(WebLinkView::Enroll)
                    } else {
                        Err(
                            against_invariant(
                                "I1: enrolling a passkey requires a human ceremony: present a presence proof by this node's device key (`vk passkey enroll` signs one)"@,
                            ),
                        )
                    }
                } else if page == "approve"@ {
                    match needed(p, "task_id"@) {
                        Err(e) => Err(e),
                        Ok(id) => match subject_of(k.store, ctx, id) {
                            Err(e) => Err(told(e)),
                            Ok(subject) => Ok(WebLinkView::Approve { task_id: id, subject }),
                        },
                    }
                } else {
                    Err(bad_params("no web page "@ + page))
                },
            },
        }
    }
}

/// What a link is answered.
pub open spec fn link_json(link: WebLinkView, url: Seq<char>) -> JsonView {
    match link {
        WebLinkView::Enroll => one_text("url"@, url),
        WebLinkView::Approve { task_id, subject } => JsonView::Object(
            seq![("url"@, JsonView::Text(url)), ("subject_hash"@, JsonView::Text(subject))],
        ),
    }
}

/// What a link is answered.
pub fn link_answer(link: &WebLink, url: &str) -> (r: Json)
    ensures
        r@ == link_json(link@, url@),
{
    match link {
        WebLink::Enroll => one_text_answer("url", url),
        WebLink::Approve { task_id, subject } => {
            let mut f = Fields::new();
            f.put_text("url", url);
            f.put_text("subject_hash", subject.as_str());
            assert(f@ =~= link_json(link@, url@)->Object_0);
            f.object()
        },
    }
}

impl<A> RealKernel<A> {
    pub(crate) fn do_task_create(&mut self, ctx: &Ctx, p: &Json, words: &str) -> (r: Result<
        Json,
        RpcError,
    >)
        requires
            old(self).wf(),
        ensures
            final(self).wf(),
            (final(self)@, rpc_outcome(r)) == task_creating(old(self)@, ctx@, p@, words@),
    {
        let goal = match need(p, "goal") {
            Ok(s) => s,
            Err(e) => return Err(e),
        };
        let kind = match p.text_at("artefact_type") {
            Some(s) => s.dup(),
            None => "note".to_owned(),
        };
        let steps = match p.get("steps") {
            Some(v) => read_steps(v),
            None => None,
        };
        let steps = match steps {
            Some(s) => s,
            None => return Err(bad(cat("steps: ", words).as_str())),
        };
        match self.create_task(ctx, goal.as_str(), kind.as_str(), Label::bottom(), steps) {
            Ok(t) => Ok(task_to_json(&t)),
            Err(e) => Err(kerr(&e)),
        }
    }

    pub(crate) fn do_task_subject(&self, ctx: &Ctx, p: &Json) -> (r: Result<Json, RpcError>)
        requires
            self.wf(),
        ensures
            rpc_outcome(r) == subject_told(self@, ctx@, p@),
    {
        let id = match need(p, "task_id") {
            Ok(s) => s,
            Err(e) => return Err(e),
        };
        match self.approval_subject(ctx, id.as_str()) {
            Ok(h) => Ok(one_text_answer("subject_hash", h.as_str())),
            Err(e) => Err(kerr(&e)),
        }
    }

    pub(crate) fn do_challenge(&mut self, ctx: &Ctx, p: &Json, nonce: &str) -> (r: Result<
        Json,
        RpcError,
    >)
        requires
            old(self).wf(),
        ensures
            final(self).wf(),
            (final(self)@, rpc_outcome(r)) == challenging(old(self)@, ctx@, p@, nonce@),
    {
        let id = match need(p, "task_id") {
            Ok(s) => s,
            Err(e) => return Err(e),
        };
        match self.mint_with_nonce(ctx, id.as_str(), APPROVAL_CHALLENGE_TTL_MS, nonce) {
            Ok(c) => Ok(challenge_to_json(&c)),
            Err(e) => Err(kerr(&e)),
        }
    }

    pub(crate) fn do_task_show(&self, ctx: &Ctx, p: &Json) -> (r: Result<Json, RpcError>)
        requires
            self.wf(),
        ensures
            rpc_outcome(r) == task_shown(self@, ctx@, p@),
    {
        let id = match need(p, "task_id") {
            Ok(s) => s,
            Err(e) => return Err(e),
        };
        let t = match self.task(ctx, id.as_str()) {
            Some(t) => t,
            None => return Err(not_found(id.as_str())),
        };
        let ds = match self.task_decisions(ctx, &t) {
            Ok(ds) => ds,
            Err(e) => return Err(kerr(&e)),
        };
        let mut f = Fields::new();
        let v = task_to_json(&t);
        put_members(&mut f, &v);
        f.put("decisions", decisions_to_json(&ds));
        assert(f@ =~= task_shown(self@, ctx@, p@)->Ok_0->Object_0);
        Ok(f.object())
    }

    pub(crate) fn do_task_list(&self, ctx: &Ctx) -> (r: Json)
        requires
            self.wf(),
        ensures
            r@ == task_list(task_listing(self@.store, ctx@)),
    {
        let ts = self.tasks(ctx);
        proof {
            tasks_are_listed_one_way(self@.store, ctx@, all(ts@));
        }
        task_list_to_json(&ts)
    }

    pub(crate) fn do_stop(&mut self, ctx: &Ctx, p: &Json) -> (r: Result<Json, RpcError>)
        requires
            old(self).wf(),
        ensures
            final(self).wf(),
            (final(self)@, rpc_outcome(r)) == stop_asked(old(self)@, ctx@, p@),
    {
        let scope = match p.text_at("scope") {
            Some(s) => s.dup(),
            None => "node".to_owned(),
        };
        match self.stop(ctx, scope.as_str()) {
            Ok(id) => Ok(one_text_answer("stop_id", id.as_str())),
            Err(e) => Err(kerr(&e)),
        }
    }

    pub(crate) fn do_resume(&mut self, ctx: &Ctx, p: &Json) -> (r: Result<Json, RpcError>)
        requires
            old(self).wf(),
        ensures
            final(self).wf(),
            (final(self)@, rpc_outcome(r)) == resume_asked(old(self)@, ctx@, p@),
    {
        let id = match need(p, "stop_id") {
            Ok(s) => s,
            Err(e) => return Err(e),
        };
        match self.resume(ctx, id.as_str()) {
            Ok(()) => Ok(ok_answer()),
            Err(e) => Err(kerr(&e)),
        }
    }

    pub(crate) fn do_approve(&mut self, ctx: &Ctx, p: &Json, words: &str) -> (r: Result<
        Json,
        RpcError,
    >)
        requires
            old(self).wf(),
        ensures
            final(self).wf(),
            (final(self)@, rpc_outcome(r)) == approve_asked(old(self)@, ctx@, p@, words@),
    {
        let a = match p.get("approval") {
            Some(v) => read_approval(v),
            None => None,
        };
        let a = match a {
            Some(a) => a,
            None => return Err(bad(cat("approval: ", words).as_str())),
        };
        if a.kind != ApprovalKind::Human {
            return Err(bad("only human approvals are accepted over the transport"));
        }
        match self.approve(ctx, a) {
            Ok(()) => Ok(ok_answer()),
            Err(e) => Err(kerr(&e)),
        }
    }

    pub(crate) fn do_enroll_node(&mut self, p: &Json, now: u64) -> (r: Result<Json, RpcError>)
        requires
            old(self).wf(),
        ensures
            final(self).wf(),
            (final(self)@, rpc_outcome(r)) == enroll_asked(old(self)@, p@, now),
    {
        let id = match need(p, "device_id") {
            Ok(s) => s,
            Err(e) => return Err(e),
        };
        let digits = match need(p, "vk_hex") {
            Ok(s) => s,
            Err(e) => return Err(e),
        };
        let vk = match hex_decode(digits.as_str()) {
            Some(bytes) => array_of_32(&bytes),
            None => None,
        };
        let vk = match vk {
            Some(vk) => vk,
            None => return Err(bad("vk_hex must be 32 bytes of hex")),
        };
        let mine = cat("node:", self.node_id.as_str());
        if !same(id.as_str(), mine.as_str()) {
            return Err(
                invariant_error(
                    "I1: only the node's own device may be enrolled over the local endpoint",
                ),
            );
        }
        match self.enroll_node_key_at(vk, now) {
            Ok(()) => {
                let mut f = Fields::new();
                f.put("ok", Json::Bool(true));
                f.put_text("device_id", id.as_str());
                assert(f@ =~= enroll_asked(old(self)@, p@, now).1->Ok_0->Object_0);
                Ok(f.object())
            },
            Err(e) => Err(kerr(&e)),
        }
    }

    pub(crate) fn do_ledger_tail(&self, p: &Json, chain: &Vec<Json>) -> (r: Json)
        ensures
            r@ == tail_json(self@.store.ledger, tail_asked(p@), all(chain@)),
    {
        let n: u64 = match p.number_at("n") {
            Some(n) => n,
            None => 50,
        };
        self.last_events_to_json(n, chain)
    }

    pub(crate) fn do_ledger_verify(&self) -> (r: Json)
        ensures
            r@ == ledger_verdict(self@),
    {
        let mut f = Fields::new();
        f.put("ok", Json::Bool(self.ledger_holds()));
        assert(all(self.store.ledger@).len() == self.store.ledger@.len());
        f.put("len", Json::Unsigned(self.store.ledger.len() as u64));
        assert(f@ =~= ledger_verdict(self@)->Object_0);
        f.object()
    }

    fn need_session(&self, p: &Json, now: u64) -> (r: Result<HarnessSession, RpcError>)
        requires
            self.wf(),
        ensures
            rpc_outcome(r) == session_asked(self@, p@, now),
    {
        let token = match need(p, "token") {
            Ok(s) => s,
            Err(e) => return Err(e),
        };
        match self.harness_session(token.as_str(), now) {
            Ok(s) => Ok(s),
            Err(e) => Err(kerr(&e)),
        }
    }

    pub(crate) fn do_harness_read(&self, p: &Json, now: u64) -> (r: Result<Json, RpcError>)
        requires
            self.wf(),
        ensures
            rpc_outcome(r) == harness_reading(self@, p@, now),
    {
        let s = match self.need_session(p, now) {
            Ok(s) => s,
            Err(e) => return Err(e),
        };
        match self.read_register(&s.ctx, s.register.as_str()) {
            Ok(reg) => Ok(register_to_json(&reg)),
            Err(e) => Err(kerr(&e)),
        }
    }

    pub(crate) fn do_harness_decide(&mut self, p: &Json, now: u64) -> (r: Result<Json, RpcError>)
        requires
            old(self).wf(),
        ensures
            final(self).wf(),
            (final(self)@, rpc_outcome(r)) == harness_deciding(old(self)@, p@, now),
    {
        let s = match self.need_session(p, now) {
            Ok(s) => s,
            Err(e) => return Err(e),
        };
        let decision = match need(p, "text") {
            Ok(s) => s,
            Err(e) => return Err(e),
        };
        let mut reg = match self.read_register(&s.ctx, s.register.as_str()) {
            Ok(reg) => reg,
            Err(e) => return Err(kerr(&e)),
        };
        let ghost read = reg@;
        reg.decisions.push(cat("harness: ", decision.as_str()));
        assert(reg@ =~= RegisterView {
            decisions: read.decisions.push("harness: "@ + decision@),
            ..read
        });
        let _ = self.write_register(&s.ctx, reg);
        Ok(ok_answer())
    }

    pub(crate) fn do_harness_attach(&mut self, p: &Json, now: u64, file: FileRead) -> (r: Result<
        Json,
        RpcError,
    >)
        requires
            old(self).wf(),
        ensures
            final(self).wf(),
            (final(self)@, rpc_outcome(r)) == harness_attaching(old(self)@, p@, now, file@),
    {
        let token = match need(p, "token") {
            Ok(s) => s,
            Err(e) => return Err(e),
        };
        let kind = match need(p, "kind") {
            Ok(s) => s,
            Err(e) => return Err(e),
        };
        let path = match need(p, "path") {
            Ok(s) => s,
            Err(e) => return Err(e),
        };
        match self.harness_attach_file(token.as_str(), now, kind.as_str(), path.as_str(), file) {
            Ok(env) => Ok(one_text_answer("hash", env.hash.as_str())),
            Err(e) => Err(kerr(&e)),
        }
    }

    pub(crate) fn do_harness_ask(&mut self, p: &Json, now: u64) -> (r: Result<Json, RpcError>)
        requires
            old(self).wf(),
        ensures
            final(self).wf(),
            (final(self)@, rpc_outcome(r)) == harness_asking(old(self)@, p@, now),
    {
        let s = match self.need_session(p, now) {
            Ok(s) => s,
            Err(e) => return Err(e),
        };
        let mut reg = match self.read_register(&s.ctx, s.register.as_str()) {
            Ok(reg) => reg,
            Err(e) => return Err(kerr(&e)),
        };
        let ghost read = reg@;
        reg.open_questions.push("approval requested by the harness".to_owned());
        assert(reg@ =~= RegisterView {
            open_questions: read.open_questions.push("approval requested by the harness"@),
            ..read
        });
        let _ = self.write_register(&s.ctx, reg);
        let mut f = Fields::new();
        f.put("ok", Json::Bool(true));
        f.put("requested", Json::Bool(true));
        assert(f@ =~= harness_asking(old(self)@, p@, now).1->Ok_0->Object_0);
        Ok(f.object())
    }

    pub(crate) fn do_harness_log(&self, p: &Json, now: u64) -> (r: Result<Json, RpcError>)
        requires
            self.wf(),
        ensures
            rpc_outcome(r) == harness_logging(self@, p@, now),
    {
        match self.need_session(p, now) {
            Ok(_) => Ok(ok_answer()),
            Err(e) => Err(e),
        }
    }

    pub(crate) fn do_link(
        &self,
        ctx: Result<Ctx, RpcError>,
        p: &Json,
        web: &Option<String>,
    ) -> (r: Result<WebLink, RpcError>)
        requires
            self.wf(),
        ensures
            rpc_outcome(r) == link_asked(self@, rpc_outcome(ctx), p@, opt(*web)),
    {
        if web.is_none() {
            return Err(
                RpcError {
                    code: E_STORE,
                    message: "this daemon serves no web pages: start vkd with --web-port".to_owned(),
                },
            );
        }
        let ctx = match ctx {
            Ok(c) => c,
            Err(e) => return Err(e),
        };
        let page = match need(p, "page") {
            Ok(s) => s,
            Err(e) => return Err(e),
        };
        if same(page.as_str(), "enroll") {
            if ctx.principal.is_human() {
                Ok(WebLink::Enroll)
            } else {
                Err(
                    invariant_error(
                        "I1: enrolling a passkey requires a human ceremony: present a presence proof by this node's device key (`vk passkey enroll` signs one)",
                    ),
                )
            }
        } else if same(page.as_str(), "approve") {
            let id = match need(p, "task_id") {
                Ok(s) => s,
                Err(e) => return Err(e),
            };
            match self.approval_subject(&ctx, id.as_str()) {
                Ok(subject) => Ok(WebLink::Approve { task_id: id.dup(), subject }),
                Err(e) => Err(kerr(&e)),
            }
        } else {
            Err(bad(cat("no web page ", page.as_str()).as_str()))
        }
    }

    /// Settle a release whose files were written, or could not be, and answer with the
    /// task.
    pub fn release_settled(
        &mut self,
        ctx: &Ctx,
        release: Releasing,
        written: Result<(), KernelError>,
    ) -> (r: Result<Json, RpcError>)
        requires
            old(self).wf(),
            release.step < release.task.steps@.len(),
        ensures
            final(self).wf(),
            (final(self)@, rpc_outcome(r)) == release_answered(
                old(self)@,
                ctx@,
                release@,
                match written {
                    Ok(()) => Ok(()),
                    Err(e) => Err(e@),
                },
            ),
    {
        match self.settle_release(ctx, release, written) {
            Ok(t) => Ok(task_to_json(&t)),
            Err(e) => Err(kerr(&e)),
        }
    }

    /// The file that a harness's call asks to be attached, if there is one to read.
    pub fn file_asked(&self, p: &Json, now: u64) -> (r: Option<String>)
        requires
            self.wf(),
        ensures
            opt(r) == (match (session_asked(self@, p@, now), needed(p@, "path"@)) {
                (Ok(s), Ok(rel)) => match file_path(self@.store, s.task_id, rel) {
                    Ok(path) => Some(path),
                    Err(_) => None,
                },
                _ => None,
            }),
    {
        let s = match self.need_session(p, now) {
            Ok(s) => s,
            Err(_) => return None,
        };
        let rel = match need(p, "path") {
            Ok(rel) => rel,
            Err(_) => return None,
        };
        match self.harness_file_path(s.task_id.as_str(), rel.as_str()) {
            Ok(path) => Some(path),
            Err(_) => None,
        }
    }
}

impl<A: ArchAdapter> RealKernel<A> {
    pub(crate) fn do_unmount(&mut self, p: &Json, now: u64) -> (r: (Option<A>, Result<Json, RpcError>))
        requires
            old(self).wf(),
        ensures
            final(self).wf(),
            (final(self)@, r.0, rpc_outcome(r.1)) == unmount_asked(old(self)@, p@, now),
    {
        let id = match need(p, "arch_id") {
            Ok(s) => s,
            Err(e) => return (None, Err(e)),
        };
        let removed = self.unmount_at(id.as_str(), now);
        (removed, Ok(ok_answer()))
    }

    pub(crate) fn do_ns(&self, ctx: &Ctx, p: &Json, chain: &Vec<Json>) -> (r: Result<
        Json,
        RpcError,
    >)
        requires
            self.wf(),
        ensures
            rpc_outcome(r) == ns_listed(self@, ctx@, p@, all(chain@)),
    {
        let path = match p.text_at("path") {
            Some(s) => s.dup(),
            None => "/".to_owned(),
        };
        match resolve(self, ctx, path.as_str()) {
            Ok(e) => {
                proof {
                    tail_is_no_longer(self@, ctx@, path@);
                }
                assert(all(self.store.ledger@).len() == self.store.ledger@.len());
                Ok(entry_to_json(&e, chain, self.store.ledger.len()))
            },
            Err(e) => Err(kerr(&e)),
        }
    }

    pub(crate) fn do_top(&self, ctx: &Ctx, totals: &Table<String>) -> (r: Json)
        requires
            self.wf(),
            totals.wf(),
        ensures
            r@ == top_json(top_of(self@, ctx@), totals@),
    {
        let t = self.top(ctx);
        top_to_json(&t, totals)
    }

    fn mount_adapter(
        &mut self,
        a: A,
        checked: Result<(), String>,
        kind: &str,
        config: &Json,
        now: u64,
    ) -> (r: (Option<A>, Result<Json, RpcError>))
        requires
            old(self).wf(),
        ensures
            final(self).wf(),
            (final(self)@, r.0, rpc_outcome(r.1)) == adapter_mounting(
                old(self)@,
                a,
                verdict_view(checked),
                kind@,
                config@,
                now,
            ),
    {
        let spec = match mount_spec_of(kind, config) {
            Ok(spec) => spec,
            Err(e) => return (None, Err(e)),
        };
        let remount = remount_for(kind, config);
        let name = a.manifest().name.dup();
        let governed = a.manifest().governed;
        match self.mount_with_at(a, checked, spec, remount, now) {
            Err(why) => (None, Err(bad(why.as_str()))),
            Ok(o) => {
                let mut f = Fields::new();
                f.put_text("arch_id", o.arch_id.as_str());
                f.put_text("name", name.as_str());
                f.put("governed", Json::Bool(governed));
                f.put("already_mounted", Json::Bool(o.already_mounted));
                assert(f@ =~= mounted_json(o.arch_id@, a.declared(), o.already_mounted)->Object_0);
                (o.replaced, Ok(f.object()))
            },
        }
    }

    pub(crate) fn do_mount(
        &mut self,
        engine: &str,
        p: &Json,
        made: Option<Made<A>>,
        checked: Result<(), String>,
        now: u64,
    ) -> (r: (Option<A>, Result<Json, RpcError>))
        requires
            old(self).wf(),
        ensures
            final(self).wf(),
            (final(self)@, r.0, rpc_outcome(r.1)) == mount_asked(
                old(self)@,
                engine@,
                p@,
                opt(made),
                verdict_view(checked),
                now,
            ),
    {
        let kind = match need(p, "kind") {
            Ok(s) => s,
            Err(e) => return (None, Err(e)),
        };
        let coder = cat(engine, "-code");
        let outside = same(kind.as_str(), coder.as_str()) || same(kind.as_str(), "ollama");
        if outside {
            if let Some(m) = &made {
                if let Some(why) = &m.early {
                    return (None, Err(bad(why.as_str())));
                }
            }
        }
        let config = match p.get("config") {
            Some(v) => v.copy(),
            None => Json::Null,
        };
        if let Err(e) = mount_spec_of(kind.as_str(), &config) {
            return (None, Err(e));
        }
        if !outside {
            return (None, Err(bad(cat("no arch kind ", kind.as_str()).as_str())));
        }
        match made {
            None => {
                let why = if same(kind.as_str(), "ollama") {
                    "no ollama adapter".to_owned()
                } else {
                    cat3("no ", engine, " version")
                };
                (None, Err(internal(why.as_str())))
            },
            Some(m) => match m.adapter {
                Err(why) => (None, Err(bad(why.as_str()))),
                Ok(a) => self.mount_adapter(a, checked, kind.as_str(), &config, now),
            },
        }
    }
}

impl<A: FromMock> RealKernel<A> {
    pub(crate) fn do_mount_mock(&mut self, p: &Json, checked: Result<(), String>, now: u64) -> (r:
        Result<Json, RpcError>)
        requires
            old(self).wf(),
        ensures
            final(self).wf(),
            mounts_mock(
                old(self)@,
                p@,
                verdict_view(checked),
                now,
                final(self)@,
                rpc_outcome(r),
            ),
    {
        let name = match p.text_at("name") {
            Some(s) => s.dup(),
            None => "mock".to_owned(),
        };
        let ceiling: u32 = match p.number_at("context_ceiling") {
            None => 4096,
            Some(n) => if n <= u32::MAX as u64 {
                n as u32
            } else {
                return Err(bad("context_ceiling"));
            },
        };
        let manifest = mock_manifest(name.as_str(), ceiling);
        let spec = MountSpec::mock(&manifest, ceiling);
        let ghost m = manifest@;
        let a = A::from_mock(MockAdapter { manifest, budget: ceiling });
        assert(is_mock(a, m, ceiling));
        match self.mount_with_at(a, checked, spec, Remount::Keep, now) {
            Err(why) => Err(bad(why.as_str())),
            Ok(o) => {
                let mut f = Fields::new();
                f.put_text("arch_id", o.arch_id.as_str());
                f.put("already_mounted", Json::Bool(o.already_mounted));
                assert(f@ =~= mock_mounting(
                    old(self)@,
                    a,
                    verdict_view(checked),
                    m,
                    ceiling,
                    now,
                ).1->Ok_0->Object_0);
                Ok(f.object())
            },
        }
    }
}

} // verus!
