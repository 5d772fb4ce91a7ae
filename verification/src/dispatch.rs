//! One request, from the line it came in to what it is answered.
use crate::adapter::ArchAdapter;
use crate::challenges::{issuing, presence_spending, Challenges, CHALLENGE_TTL_MS};
use crate::error::KernelErrorView;
use crate::harness::{FileRead, FileReadView};
use crate::json::{Fields, Json, JsonView};
use crate::kernel::{KernelView, RealKernel};
use crate::leases::capped_sum;
use crate::listing::task_listing;
use crate::methods::{
    approve_asked, challenging, enroll_asked, harness_asking, harness_attaching, harness_deciding,
    harness_logging, harness_reading, ledger_verdict, link_asked, mount_asked, mounts_mock, needed,
    ns_listed, resume_asked, stop_asked, subject_told, tail_asked, task_creating, task_shown,
    unmount_asked, Done, FromMock, Made, MadeView, Mounted, WebLink, WebLinkView,
};
use crate::model::{all, opt, verdict_view, Duplicate};
use crate::outside::{fresh_key_text, fresh_uuid, is_key_text, is_uuid_text, now_ms};
use crate::presence::PresenceProofView;
use crate::principal::{Ctx, CtxView};
use crate::rpc::{
    bad, bad_params, ctx_for, ctx_of, derives_principal, kerr, rpc_outcome, takes_presence, told,
    Presented, PresentedView, Request, RequestView, RpcError, RpcErrorView, E_METHOD,
};
use crate::runs::{read_run_params, run_params_of, HarnessRunParams, HarnessRunParamsView};
use crate::scheduler::{steps_to, Releasing, ReleasingView, StepRun, StepRunView};
use crate::screens::{
    arch_list_json, boot_info_json, passkey_list_json, tail_json, top_json,
};
use crate::settings::ServerConfig;
use crate::table::Table;
use crate::text::{cat, same};
use crate::top::top_of;
use crate::wire::{task_json, task_list, task_to_json};
use vstd::prelude::*;

verus! {

/// What can be asked for.
#[derive(Clone, Copy, Debug, PartialEq, Eq, Structural)]
pub enum Method {
    PresenceChallenge,
    BootInfo,
    WebLink,
    PasskeyLs,
    NsLs,
    ArchLs,
    ArchMount,
    ArchMountMock,
    ArchUnmount,
    HarnessRun,
    HarnessReadRegister,
    HarnessWriteDecision,
    HarnessAttachArtefact,
    HarnessRequestApproval,
    HarnessLog,
    TaskCreate,
    TaskStep,
    TaskSubject,
    ApprovalChallenge,
    TaskShow,
    TaskLs,
    Top,
    Stop,
    Resume,
    Approve,
    DeviceEnrollNode,
    LedgerTail,
    LedgerVerify,
}

/// A method as a request spells it.
pub open spec fn method_text(m: Method) -> Seq<char> {
    match m {
        Method::PresenceChallenge => "presence.challenge"@,
        Method::BootInfo => "boot.info"@,
        Method::WebLink => "web.link"@,
        Method::PasskeyLs => "passkey.ls"@,
        Method::NsLs => "ns.ls"@,
        Method::ArchLs => "arch.ls"@,
        Method::ArchMount => "arch.mount"@,
        Method::ArchMountMock => "arch.mount_mock"@,
        Method::ArchUnmount => "arch.unmount"@,
        Method::HarnessRun => "harness.run"@,
        Method::HarnessReadRegister => "harness.read_register"@,
        Method::HarnessWriteDecision => "harness.write_decision"@,
        Method::HarnessAttachArtefact => "harness.attach_artefact"@,
        Method::HarnessRequestApproval => "harness.request_approval"@,
        Method::HarnessLog => "harness.log"@,
        Method::TaskCreate => "task.create"@,
        Method::TaskStep => "task.step"@,
        Method::TaskSubject => "task.subject"@,
        Method::ApprovalChallenge => "approval.challenge"@,
        Method::TaskShow => "task.show"@,
        Method::TaskLs => "task.ls"@,
        Method::Top => "top"@,
        Method::Stop => "stop"@,
        Method::Resume => "resume"@,
        Method::Approve => "approve"@,
        Method::DeviceEnrollNode => "device.enroll_node"@,
        Method::LedgerTail => "ledger.tail"@,
        Method::LedgerVerify => "ledger.verify"@,
    }
}

/// The method that a request names, if there is one.
pub open spec fn method_in(s: Seq<char>) -> Option<Method> {
    if s == "presence.challenge"@ {
        Some(Method::PresenceChallenge)
    } else if s == "boot.info"@ {
        Some(Method::BootInfo)
    } else if s == "web.link"@ {
        Some(Method::WebLink)
    } else if s == "passkey.ls"@ {
        Some(Method::PasskeyLs)
    } else if s == "ns.ls"@ {
        Some(Method::NsLs)
    } else if s == "arch.ls"@ {
        Some(Method::ArchLs)
    } else if s == "arch.mount"@ {
        Some(Method::ArchMount)
    } else if s == "arch.mount_mock"@ {
        Some(Method::ArchMountMock)
    } else if s == "arch.unmount"@ {
        Some(Method::ArchUnmount)
    } else if s == "harness.run"@ {
        Some(Method::HarnessRun)
    } else if s == "harness.read_register"@ {
        Some(Method::HarnessReadRegister)
    } else if s == "harness.write_decision"@ {
        Some(Method::HarnessWriteDecision)
    } else if s == "harness.attach_artefact"@ {
        Some(Method::HarnessAttachArtefact)
    } else if s == "harness.request_approval"@ {
        Some(Method::HarnessRequestApproval)
    } else if s == "harness.log"@ {
        Some(Method::HarnessLog)
    } else if s == "task.create"@ {
        Some(Method::TaskCreate)
    } else if s == "task.step"@ {
        Some(Method::TaskStep)
    } else if s == "task.subject"@ {
        Some(Method::TaskSubject)
    } else if s == "approval.challenge"@ {
        Some(Method::ApprovalChallenge)
    } else if s == "task.show"@ {
        Some(Method::TaskShow)
    } else if s == "task.ls"@ {
        Some(Method::TaskLs)
    } else if s == "top"@ {
        Some(Method::Top)
    } else if s == "stop"@ {
        Some(Method::Stop)
    } else if s == "resume"@ {
        Some(Method::Resume)
    } else if s == "approve"@ {
        Some(Method::Approve)
    } else if s == "device.enroll_node"@ {
        Some(Method::DeviceEnrollNode)
    } else if s == "ledger.tail"@ {
        Some(Method::LedgerTail)
    } else if s == "ledger.verify"@ {
        Some(Method::LedgerVerify)
    } else {
        None
    }
}

/// The method that a request names, if there is one.
pub fn read_method(s: &str) -> (r: Option<Method>)
    ensures
        r == method_in(s@),
{
    if same(s, "presence.challenge") {
        Some(Method::PresenceChallenge)
    } else if same(s, "boot.info") {
        Some(Method::BootInfo)
    } else if same(s, "web.link") {
        Some(Method::WebLink)
    } else if same(s, "passkey.ls") {
        Some(Method::PasskeyLs)
    } else if same(s, "ns.ls") {
        Some(Method::NsLs)
    } else if same(s, "arch.ls") {
        Some(Method::ArchLs)
    } else if same(s, "arch.mount") {
        Some(Method::ArchMount)
    } else if same(s, "arch.mount_mock") {
        Some(Method::ArchMountMock)
    } else if same(s, "arch.unmount") {
        Some(Method::ArchUnmount)
    } else if same(s, "harness.run") {
        Some(Method::HarnessRun)
    } else if same(s, "harness.read_register") {
        Some(Method::HarnessReadRegister)
    } else if same(s, "harness.write_decision") {
        Some(Method::HarnessWriteDecision)
    } else if same(s, "harness.attach_artefact") {
        Some(Method::HarnessAttachArtefact)
    } else if same(s, "harness.request_approval") {
        Some(Method::HarnessRequestApproval)
    } else if same(s, "harness.log") {
        Some(Method::HarnessLog)
    } else if same(s, "task.create") {
        Some(Method::TaskCreate)
    } else if same(s, "task.step") {
        Some(Method::TaskStep)
    } else if same(s, "task.subject") {
        Some(Method::TaskSubject)
    } else if same(s, "approval.challenge") {
        Some(Method::ApprovalChallenge)
    } else if same(s, "task.show") {
        Some(Method::TaskShow)
    } else if same(s, "task.ls") {
        Some(Method::TaskLs)
    } else if same(s, "top") {
        Some(Method::Top)
    } else if same(s, "stop") {
        Some(Method::Stop)
    } else if same(s, "resume") {
        Some(Method::Resume)
    } else if same(s, "approve") {
        Some(Method::Approve)
    } else if same(s, "device.enroll_node") {
        Some(Method::DeviceEnrollNode)
    } else if same(s, "ledger.tail") {
        Some(Method::LedgerTail)
    } else if same(s, "ledger.verify") {
        Some(Method::LedgerVerify)
    } else {
        None
    }
}

/// What is answered.
pub enum Answer {
    /// This, as it is.
    Plain(Json),
    /// The task, once these files are written and the step is settled in this context.
    Releasing { ctx: Ctx, release: Releasing },
    /// A link, once it is made.
    Link(WebLink),
    /// How a run ended, once it has been launched and settled.
    Run(HarnessRunParams),
}

/// What an [`Answer`] says.
pub enum AnswerView {
    Plain(JsonView),
    Releasing { ctx: CtxView, release: ReleasingView },
    Link(WebLinkView),
    Run(HarnessRunParamsView),
}

impl View for Answer {
    type V = AnswerView;

    open spec fn view(&self) -> AnswerView {
        match self {
            Answer::Plain(j) => AnswerView::Plain(j@),
            Answer::Releasing { ctx, release } => AnswerView::Releasing {
                ctx: ctx@,
                release: release@,
            },
            Answer::Link(l) => AnswerView::Link(l@),
            Answer::Run(p) => AnswerView::Run(p@),
        }
    }
}

/// What is known only outside the kernel: the words of a reader, sums and the chain of the
/// record.
#[derive(Debug)]
pub struct Beside {
    /// What the reader of a value that the request has has against it, where it is refused.
    pub words: String,
    /// What the prices of the calls of each arch come to.
    pub totals: Table<String>,
    /// What the chain of the record has of each event.
    pub chain: Vec<Json>,
}

/// What a [`Beside`] says.
pub struct BesideView {
    pub words: Seq<char>,
    pub totals: Map<Seq<char>, Seq<char>>,
    pub chain: Seq<JsonView>,
}

impl View for Beside {
    type V = BesideView;

    open spec fn view(&self) -> BesideView {
        BesideView { words: self.words@, totals: self.totals@, chain: all(self.chain@) }
    }
}

impl Beside {
    /// Whether the sums are in order.
    pub open spec fn wf(&self) -> bool {
        self.totals.wf()
    }

    /// Nothing that is known outside.
    pub fn nothing() -> (r: Beside)
        ensures
            r.wf(),
            r@.words.len() == 0,
            r@.totals == Map::<Seq<char>, Seq<char>>::empty(),
            r@.chain == Seq::<JsonView>::empty(),
    {
        let r = Beside { words: String::new(), totals: Table::new(), chain: Vec::new() };
        assert(r@.chain =~= Seq::<JsonView>::empty());
        r
    }
}

/// What a request cannot bring itself: the time, chance, and what was made or read for it.
pub struct Given<A> {
    /// When the request is looked at.
    pub now: u64,
    /// When the kernel acts on it.
    pub later: u64,
    pub presence_nonce: String,
    pub approval_nonce: String,
    /// The adapter that was made, for a mount.
    pub made: Option<Made<A>>,
    /// What the manifest of the arch that is mounted was found to be on its own.
    pub checked: Result<(), String>,
    /// The file that was read, for a harness that attaches one.
    pub file: FileRead,
    /// What is known only outside.
    pub beside: Beside,
}

/// What a [`Given`] says.
pub struct GivenView<A> {
    pub now: u64,
    pub later: u64,
    pub presence_nonce: Seq<char>,
    pub approval_nonce: Seq<char>,
    pub made: Option<MadeView<A>>,
    pub checked: Result<(), Seq<char>>,
    pub file: FileReadView,
    pub beside: BesideView,
}

impl<A> View for Given<A> {
    type V = GivenView<A>;

    open spec fn view(&self) -> GivenView<A> {
        GivenView {
            now: self.now,
            later: self.later,
            presence_nonce: self.presence_nonce@,
            approval_nonce: self.approval_nonce@,
            made: opt(self.made),
            checked: verdict_view(self.checked),
            file: self.file@,
            beside: self.beside@,
        }
    }
}

/// What comes of a request: its answer, and an adapter that is left over.
pub struct Dispatched<A> {
    pub answer: Result<Answer, RpcError>,
    pub stale: Option<A>,
}

/// What of a daemon's configuration a request can meet.
pub struct ConfigView {
    pub engine: Seq<char>,
    pub web: Option<Seq<char>>,
}

/// What of a daemon's configuration a request can meet.
pub open spec fn config_view(cfg: ServerConfig) -> ConfigView {
    ConfigView { engine: cfg.engine@, web: opt(cfg.web) }
}

/// What becomes of a proof: a nonce that is shown is spent, whatever comes next.
pub open spec fn presented_of(
    open: Map<Seq<char>, u64>,
    presence: Option<PresenceProofView>,
    now: u64,
) -> (Map<Seq<char>, u64>, Option<PresentedView>) {
    match presence {
        None => (open, None),
        Some(proof) => {
            let (left, nonce) = presence_spending(open, proof.nonce, now);
            (left, Some(PresentedView { proof, nonce }))
        },
    }
}

/// What a method does, what it answers, and the adapter that is left over.
pub type Answered<A> = (KernelView<A>, Option<A>, Result<AnswerView, RpcErrorView>);

/// A plain answer.
pub open spec fn plain(r: Result<JsonView, RpcErrorView>) -> Result<AnswerView, RpcErrorView> {
    match r {
        Ok(j) => Ok(AnswerView::Plain(j)),
        Err(e) => Err(e),
    }
}

/// A method that only reads.
pub open spec fn reads<A>(k: KernelView<A>, r: Result<JsonView, RpcErrorView>) -> Answered<A> {
    (k, None, plain(r))
}

/// A method that acts.
pub open spec fn acts<A>(d: Done<A>) -> Answered<A> {
    (d.0, None, plain(d.1))
}

/// A method that mounts or unmounts.
pub open spec fn mounts<A>(m: Mounted<A>) -> Answered<A> {
    (m.0, m.1, plain(m.2))
}

/// A method of the caller's own: nothing is done for one who is not who they say.
pub open spec fn called<A>(
    k: KernelView<A>,
    ctx: Result<CtxView, RpcErrorView>,
    f: spec_fn(CtxView) -> Answered<A>,
) -> Answered<A> {
    match ctx {
        Err(e) => (k, None, Err(e)),
        Ok(c) => f(c),
    }
}

/// What each method does, where that is one thing.
pub open spec fn answered<A: ArchAdapter>(
    k: KernelView<A>,
    m: Method,
    ctx: Result<CtxView, RpcErrorView>,
    p: JsonView,
    cfg: ConfigView,
    given: GivenView<A>,
) -> Answered<A> {
    match m {
        Method::BootInfo => reads(k, Ok(boot_info_json(k, cfg.web))),
        Method::WebLink => (
            k,
            None,
            match link_asked(k, ctx, p, cfg.web) {
                Ok(l) => Ok(AnswerView::Link(l)),
                Err(e) => Err(e),
            },
        ),
        Method::PasskeyLs => reads(k, Ok(passkey_list_json(k.store))),
        Method::NsLs => called(k, ctx, |c: CtxView| reads(k, ns_listed(k, c, p, given.beside.chain))),
        Method::ArchLs => reads(k, Ok(arch_list_json(k))),
        Method::ArchMount => mounts(
            mount_asked(k, cfg.engine, p, given.made, given.checked, given.later),
        ),
        Method::ArchUnmount => mounts(unmount_asked(k, p, given.later)),
        Method::HarnessReadRegister => reads(k, harness_reading(k, p, given.now)),
        Method::HarnessWriteDecision => acts(harness_deciding(k, p, given.now)),
        Method::HarnessAttachArtefact => acts(harness_attaching(k, p, given.now, given.file)),
        Method::HarnessRequestApproval => acts(harness_asking(k, p, given.now)),
        Method::HarnessLog => reads(k, harness_logging(k, p, given.now)),
        Method::TaskCreate => called(k, ctx, |c: CtxView| acts(task_creating(k, c, p, given.beside.words))),
        Method::TaskSubject => called(k, ctx, |c: CtxView| reads(k, subject_told(k, c, p))),
        Method::ApprovalChallenge => called(
            k,
            ctx,
            |c: CtxView| acts(challenging(k, c, p, given.approval_nonce)),
        ),
        Method::TaskShow => called(k, ctx, |c: CtxView| reads(k, task_shown(k, c, p))),
        Method::TaskLs => called(
            k,
            ctx,
            |c: CtxView| reads(k, Ok(task_list(task_listing(k.store, c)))),
        ),
        Method::Top => called(k, ctx, |c: CtxView| reads(k, Ok(top_json(top_of(k, c), given.beside.totals)))),
        Method::Stop => called(k, ctx, |c: CtxView| acts(stop_asked(k, c, p))),
        Method::Resume => called(k, ctx, |c: CtxView| acts(resume_asked(k, c, p))),
        Method::Approve => called(k, ctx, |c: CtxView| acts(approve_asked(k, c, p, given.beside.words))),
        Method::DeviceEnrollNode => acts(enroll_asked(k, p, given.later)),
        Method::LedgerTail => reads(
            k,
            Ok(tail_json(k.store.ledger, tail_asked(p), given.beside.chain)),
        ),
        Method::LedgerVerify => reads(k, Ok(ledger_verdict(k))),
        Method::HarnessRun => (
            k,
            None,
            match run_params_of(p, cfg.engine, given.beside.words) {
                Ok(params) => Ok(AnswerView::Run(params)),
                Err(e) => Err(e),
            },
        ),
        Method::PresenceChallenge | Method::ArchMountMock | Method::TaskStep => (
            k,
            None,
            Err(RpcErrorView { code: E_METHOD, message: Seq::empty() }),
        ),
    }
}

/// What a step that was run is answered.
pub open spec fn step_answer(c: CtxView, o: Result<StepRunView, KernelErrorView>) -> Result<
    AnswerView,
    RpcErrorView,
> {
    match o {
        Ok(StepRunView::Settled(t)) => Ok(AnswerView::Plain(task_json(t))),
        Ok(StepRunView::Releasing(release)) => Ok(AnswerView::Releasing { ctx: c, release }),
        Err(e) => Err(told(e)),
    }
}

/// Whether running a step of a task comes to this answer.
pub open spec fn step_is_answered<A: ArchAdapter>(
    k: KernelView<A>,
    c: CtxView,
    id: Seq<char>,
    after: KernelView<A>,
    r: Result<AnswerView, RpcErrorView>,
) -> bool {
    exists|o: Result<StepRunView, KernelErrorView>|
        r == step_answer(c, o) && #[trigger] steps_to(k, c, id, after, o)
}

/// Whether `task.step` does this. What an arch answers is not known beforehand.
pub open spec fn steps<A: ArchAdapter>(
    k: KernelView<A>,
    ctx: Result<CtxView, RpcErrorView>,
    p: JsonView,
    after: KernelView<A>,
    r: Result<AnswerView, RpcErrorView>,
) -> bool {
    match ctx {
        Err(e) => after == k && r == Err::<AnswerView, RpcErrorView>(e),
        Ok(c) => match needed(p, "task_id"@) {
            Err(e) => after == k && r == Err::<AnswerView, RpcErrorView>(e),
            Ok(id) => step_is_answered(k, c, id, after, r),
        },
    }
}

/// Whether `arch.mount_mock` does this.
pub open spec fn mock_is_answered<A: ArchAdapter>(
    k: KernelView<A>,
    p: JsonView,
    checked: Result<(), Seq<char>>,
    now: u64,
    after: KernelView<A>,
    r: Result<AnswerView, RpcErrorView>,
) -> bool {
    match r {
        Ok(AnswerView::Plain(j)) => mounts_mock(k, p, checked, now, after, Ok(j)),
        Ok(_) => false,
        Err(e) => mounts_mock(k, p, checked, now, after, Err(e)),
    }
}

/// What a nonce that was issued is answered.
pub open spec fn nonce_json(nonce: Seq<char>, now: u64) -> JsonView {
    JsonView::Object(
        seq![
            ("nonce"@, JsonView::Text(nonce)),
            ("expires_at_ms"@, JsonView::Unsigned(capped_sum(now, CHALLENGE_TTL_MS) as nat)),
        ],
    )
}

/// What is said of a method that there is not.
pub open spec fn no_method(name: Seq<char>) -> RpcErrorView {
    RpcErrorView { code: E_METHOD, message: "unknown method "@ + name }
}

/// Whether a request, of which this became of its proof, comes to this.
pub open spec fn comes_to<A: ArchAdapter>(
    k: KernelView<A>,
    open: Map<Seq<char>, u64>,
    req: RequestView,
    presented: Option<PresentedView>,
    cfg: ConfigView,
    given: GivenView<A>,
    after: KernelView<A>,
    left: Map<Seq<char>, u64>,
    stale: Option<A>,
    r: Result<AnswerView, RpcErrorView>,
) -> bool {
    let ctx = ctx_of(k, presented, given.now);
    match method_in(req.method) {
        None => {
            &&& after == k
            &&& left == open
            &&& stale is None
            &&& r == Err::<AnswerView, RpcErrorView>(no_method(req.method))
        },
        Some(Method::PresenceChallenge) => {
            &&& after == k
            &&& left == issuing(open, given.now, given.presence_nonce)
            &&& stale is None
            &&& r == Ok::<AnswerView, RpcErrorView>(
                AnswerView::Plain(nonce_json(given.presence_nonce, given.now)),
            )
        },
        Some(Method::TaskStep) => {
            &&& left == open
            &&& stale is None
            &&& steps(k, ctx, req.params, after, r)
        },
        Some(Method::ArchMountMock) => {
            &&& left == open
            &&& stale is None
            &&& mock_is_answered(k, req.params, given.checked, given.later, after, r)
        },
        Some(m) => {
            &&& left == open
            &&& (after, stale, r) == answered(k, m, ctx, req.params, cfg, given)
        },
    }
}

/// Whether a request comes to this: its proof is spent before anything else, and a proof
/// where none is taken is refused.
pub open spec fn dispatches<A: ArchAdapter>(
    k: KernelView<A>,
    open: Map<Seq<char>, u64>,
    req: RequestView,
    cfg: ConfigView,
    given: GivenView<A>,
    after: KernelView<A>,
    left: Map<Seq<char>, u64>,
    stale: Option<A>,
    r: Result<AnswerView, RpcErrorView>,
) -> bool {
    let (rest, presented) = presented_of(open, req.presence, given.now);
    if presented is Some && !derives_principal(req.method) {
        &&& after == k
        &&& left == rest
        &&& stale is None
        &&& r == Err::<AnswerView, RpcErrorView>(
            bad_params("this method does not take a presence proof"@),
        )
    } else {
        comes_to(k, rest, req, presented, cfg, given, after, left, stale, r)
    }
}

fn plainly(r: Result<Json, RpcError>) -> (a: Result<Answer, RpcError>)
    ensures
        rpc_outcome(a) == plain(rpc_outcome(r)),
{
    match r {
        Ok(j) => Ok(Answer::Plain(j)),
        Err(e) => Err(e),
    }
}

fn nonce_answer(nonce: &str, exp: u64) -> (r: Json)
    ensures
        forall|now: u64| exp == capped_sum(now, CHALLENGE_TTL_MS) ==> r@ == #[trigger] nonce_json(
            nonce@,
            now,
        ),
{
    let mut f = Fields::new();
    f.put_text("nonce", nonce);
    f.put("expires_at_ms", Json::Unsigned(exp));
    let ghost members = f@;
    let r = f.object();
    assert forall|now: u64| exp == capped_sum(now, CHALLENGE_TTL_MS) implies r@
        == #[trigger] nonce_json(nonce@, now) by {
        assert(members =~= nonce_json(nonce@, now)->Object_0);
    }
    r
}

impl<A: FromMock> RealKernel<A> {
    fn do_step(&mut self, ctx: Result<Ctx, RpcError>, p: &Json) -> (r: Result<Answer, RpcError>)
        requires
            old(self).wf(),
        ensures
            final(self).wf(),
            steps(old(self)@, rpc_outcome(ctx), p@, final(self)@, rpc_outcome(r)),
    {
        let ctx = match ctx {
            Ok(c) => c,
            Err(e) => return Err(e),
        };
        let id = match p.text_at("task_id") {
            Some(id) => id.dup(),
            None => return Err(bad("task_id")),
        };
        let ghost c = ctx@;
        let ran = self.run_task_step(&ctx, id.as_str());
        let ghost o = crate::kernel::outcome(ran);
        let r = match ran {
            Ok(StepRun::Settled(t)) => Ok(Answer::Plain(task_to_json(&t))),
            Ok(StepRun::Releasing(release)) => Ok(Answer::Releasing { ctx, release }),
            Err(e) => Err(kerr(&e)),
        };
        assert(rpc_outcome(r) == step_answer(c, o));
        assert(steps_to(old(self)@, c, id@, self@, o));
        r
    }

    fn do_read(
        &self,
        m: Method,
        ctx: Result<Ctx, RpcError>,
        p: &Json,
        cfg: &ServerConfig,
        now: u64,
        beside: &Beside,
    ) -> (r: Result<Answer, RpcError>)
        requires
            self.wf(),
            beside.wf(),
            is_reading(m),
        ensures
            forall|given: GivenView<A>|
                given.now == now && given.beside == beside@ ==> (self@, None::<A>, rpc_outcome(r)) == #[trigger] answered(
                    self@,
                    m,
                    rpc_outcome(ctx),
                    p@,
                    config_view(*cfg),
                    given,
                ),
    {
        match m {
            Method::BootInfo => Ok(Answer::Plain(self.boot_info(&cfg.web))),
            Method::PasskeyLs => Ok(Answer::Plain(self.passkey_list_to_json())),
            Method::ArchLs => Ok(Answer::Plain(self.arch_list_to_json())),
            Method::LedgerTail => Ok(Answer::Plain(self.do_ledger_tail(p, &beside.chain))),
            Method::LedgerVerify => Ok(Answer::Plain(self.do_ledger_verify())),
            Method::HarnessReadRegister => plainly(self.do_harness_read(p, now)),
            Method::HarnessLog => plainly(self.do_harness_log(p, now)),
            Method::WebLink => match self.do_link(ctx, p, &cfg.web) {
                Ok(l) => Ok(Answer::Link(l)),
                Err(e) => Err(e),
            },
            Method::HarnessRun => match read_run_params(
                p,
                cfg.engine.as_str(),
                beside.words.as_str(),
            ) {
                Ok(params) => Ok(Answer::Run(params)),
                Err(e) => Err(e),
            },
            _ => {
                let ctx = match ctx {
                    Ok(c) => c,
                    Err(e) => return Err(e),
                };
                match m {
                    Method::NsLs => plainly(self.do_ns(&ctx, p, &beside.chain)),
                    Method::TaskSubject => plainly(self.do_task_subject(&ctx, p)),
                    Method::TaskShow => plainly(self.do_task_show(&ctx, p)),
                    Method::TaskLs => Ok(Answer::Plain(self.do_task_list(&ctx))),
                    _ => Ok(Answer::Plain(self.do_top(&ctx, &beside.totals))),
                }
            },
        }
    }

    fn do_act(
        &mut self,
        m: Method,
        ctx: Result<Ctx, RpcError>,
        p: &Json,
        cfg: &ServerConfig,
        given: Given<A>,
    ) -> (r: (Option<A>, Result<Answer, RpcError>))
        requires
            old(self).wf(),
            is_acting(m),
        ensures
            final(self).wf(),
            (final(self)@, r.0, rpc_outcome(r.1)) == answered(
                old(self)@,
                m,
                rpc_outcome(ctx),
                p@,
                config_view(*cfg),
                given@,
            ),
    {
        match m {
            Method::ArchMount => {
                let (stale, r) = self.do_mount(
                    cfg.engine.as_str(),
                    p,
                    given.made,
                    given.checked,
                    given.later,
                );
                (stale, plainly(r))
            },
            Method::ArchUnmount => {
                let (stale, r) = self.do_unmount(p, given.later);
                (stale, plainly(r))
            },
            Method::HarnessWriteDecision => (None, plainly(self.do_harness_decide(p, given.now))),
            Method::HarnessAttachArtefact => (
                None,
                plainly(self.do_harness_attach(p, given.now, given.file)),
            ),
            Method::HarnessRequestApproval => (None, plainly(self.do_harness_ask(p, given.now))),
            Method::DeviceEnrollNode => (None, plainly(self.do_enroll_node(p, given.later))),
            _ => {
                let ctx = match ctx {
                    Ok(c) => c,
                    Err(e) => return (None, Err(e)),
                };
                let r = match m {
                    Method::TaskCreate => self.do_task_create(&ctx, p, given.beside.words.as_str()),
                    Method::ApprovalChallenge => self.do_challenge(
                        &ctx,
                        p,
                        given.approval_nonce.as_str(),
                    ),
                    Method::Stop => self.do_stop(&ctx, p),
                    Method::Resume => self.do_resume(&ctx, p),
                    _ => self.do_approve(&ctx, p, given.beside.words.as_str()),
                };
                (None, plainly(r))
            },
        }
    }
}

/// The methods that only read.
pub open spec fn is_reading(m: Method) -> bool {
    match m {
        Method::BootInfo | Method::PasskeyLs | Method::ArchLs | Method::LedgerTail
        | Method::LedgerVerify | Method::HarnessReadRegister | Method::HarnessLog | Method::WebLink
        | Method::HarnessRun | Method::NsLs | Method::TaskSubject | Method::TaskShow
        | Method::TaskLs | Method::Top => true,
        _ => false,
    }
}

/// The methods that do one thing.
pub open spec fn is_acting(m: Method) -> bool {
    match m {
        Method::ArchMount | Method::ArchUnmount | Method::HarnessWriteDecision
        | Method::HarnessAttachArtefact | Method::HarnessRequestApproval | Method::DeviceEnrollNode
        | Method::TaskCreate | Method::ApprovalChallenge | Method::Stop | Method::Resume
        | Method::Approve => true,
        _ => false,
    }
}

fn only_reads(m: Method) -> (r: bool)
    ensures
        r == is_reading(m),
{
    match m {
        Method::BootInfo | Method::PasskeyLs | Method::ArchLs | Method::LedgerTail
        | Method::LedgerVerify | Method::HarnessReadRegister | Method::HarnessLog | Method::WebLink
        | Method::HarnessRun | Method::NsLs | Method::TaskSubject | Method::TaskShow
        | Method::TaskLs | Method::Top => true,
        _ => false,
    }
}

/// Answer a request, with all that it needs and cannot bring itself.
pub fn dispatch_with<A: FromMock>(
    k: &mut RealKernel<A>,
    challenges: &mut Challenges,
    req: Request,
    cfg: &ServerConfig,
    given: Given<A>,
) -> (r: Dispatched<A>)
    requires
        old(k).wf(),
        old(challenges).wf(),
        given.beside.wf(),
    ensures
        final(k).wf(),
        final(challenges).wf(),
        dispatches(
            old(k)@,
            old(challenges)@,
            req@,
            config_view(*cfg),
            given@,
            final(k)@,
            final(challenges)@,
            r.stale,
            rpc_outcome(r.answer),
        ),
{
    let presented = match req.presence {
        None => None,
        Some(proof) => {
            let nonce = challenges.spend(proof.nonce.as_str(), given.now);
            Some(Presented { proof, nonce })
        },
    };
    if presented.is_some() && !takes_presence(req.method.as_str()) {
        return Dispatched {
            answer: Err(bad("this method does not take a presence proof")),
            stale: None,
        };
    }
    let m = match read_method(req.method.as_str()) {
        Some(m) => m,
        None => {
            let why = cat("unknown method ", req.method.as_str());
            return Dispatched {
                answer: Err(RpcError { code: E_METHOD, message: why }),
                stale: None,
            };
        },
    };
    if let Method::PresenceChallenge = m {
        let exp: u64 = challenges.issue_as(given.now, given.presence_nonce.as_str());
        let answer = nonce_answer(given.presence_nonce.as_str(), exp);
        return Dispatched { answer: Ok(Answer::Plain(answer)), stale: None };
    }
    let ctx = ctx_for(k, &presented, given.now);
    let p = &req.params;
    if only_reads(m) {
        let answer = k.do_read(m, ctx, p, cfg, given.now, &given.beside);
        return Dispatched { answer, stale: None };
    }
    match m {
        Method::TaskStep => Dispatched { answer: k.do_step(ctx, p), stale: None },
        Method::ArchMountMock => Dispatched {
            answer: plainly(k.do_mount_mock(p, given.checked, given.later)),
            stale: None,
        },
        _ => {
            let (stale, answer) = k.do_act(m, ctx, p, cfg, given);
            Dispatched { answer, stale }
        },
    }
}

/// Answer a request now.
pub fn dispatch<A: FromMock>(
    k: &mut RealKernel<A>,
    challenges: &mut Challenges,
    req: Request,
    cfg: &ServerConfig,
    made: Option<Made<A>>,
    checked: Result<(), String>,
    file: FileRead,
    beside: Beside,
) -> (r: Dispatched<A>)
    requires
        old(k).wf(),
        old(challenges).wf(),
        beside.wf(),
    ensures
        final(k).wf(),
        final(challenges).wf(),
        exists|given: GivenView<A>|
            {
                &&& is_uuid_text(given.presence_nonce)
                &&& is_key_text(given.approval_nonce)
                &&& given.made == opt(made)
                &&& given.checked == verdict_view(checked)
                &&& given.file == file@
                &&& given.beside == beside@
                &&& #[trigger] dispatches(
                    old(k)@,
                    old(challenges)@,
                    req@,
                    config_view(*cfg),
                    given,
                    final(k)@,
                    final(challenges)@,
                    r.stale,
                    rpc_outcome(r.answer),
                )
            },
{
    let given = Given {
        now: now_ms(),
        later: now_ms(),
        presence_nonce: fresh_uuid(),
        approval_nonce: fresh_key_text(),
        made,
        checked,
        file,
        beside,
    };
    dispatch_with(k, challenges, req, cfg, given)
}

} // verus!
