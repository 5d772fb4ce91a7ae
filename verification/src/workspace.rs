//! The workspace of a harness: a directory that holds only what the harness may see.
use crate::artefacts::artefact_read;
use crate::error::{error_text, KernelError, KernelErrorView};
use crate::ir::{join, separated};
use crate::json::{Fields, Json, JsonView};
use crate::kernel::{outcome, register_read, with_event, KernelView, RealKernel};
use crate::labels::{flows, Clearance, Label, Scope};
use crate::model::{all, opt, Duplicate};
use crate::principal::{Ctx, CtxView};
use crate::register::{ArtefactRefView, Register, RegisterView};
use crate::store::{LedgerEventView, StoreView};
use crate::text::{cat, cat3, cat4, cat5, decimal, decimal_text};
use crate::wire::{scope_name, scope_text};
use vstd::prelude::*;
use vstd::string::*;

verus! {

/// The clearance of a harness: up to the business, and nothing of third parties.
pub open spec fn harness_level() -> Clearance {
    Clearance { max_scope: Scope::Business, third_party_allowed: false }
}

/// The clearance of a harness.
pub fn harness_clearance() -> (r: Clearance)
    ensures
        r == harness_level(),
{
    Clearance { max_scope: Scope::Business, third_party_allowed: false }
}

/// One artefact placed within the harness's reach.
#[derive(Debug)]
pub struct ProjectionRecord {
    pub task_id: String,
    pub artefact_hash: String,
    pub kind: String,
    /// The scope of the artefact's label.
    pub scope: String,
}

/// What a [`ProjectionRecord`] says.
#[verifier::ext_equal]
pub struct ProjectionRecordView {
    pub task_id: Seq<char>,
    pub artefact_hash: Seq<char>,
    pub kind: Seq<char>,
    pub scope: Seq<char>,
}

impl View for ProjectionRecord {
    type V = ProjectionRecordView;

    open spec fn view(&self) -> ProjectionRecordView {
        ProjectionRecordView {
            task_id: self.task_id@,
            artefact_hash: self.artefact_hash@,
            kind: self.kind@,
            scope: self.scope@,
        }
    }
}

/// What the record says of a projection.
pub open spec fn record_json(p: ProjectionRecordView) -> JsonView {
    JsonView::Object(
        seq![
            ("task_id"@, JsonView::Text(p.task_id)),
            ("artefact_hash"@, JsonView::Text(p.artefact_hash)),
            ("kind"@, JsonView::Text(p.kind)),
            ("scope"@, JsonView::Text(p.scope)),
        ],
    )
}

fn record_to_json(p: &ProjectionRecord) -> (r: Json)
    ensures
        r@ == record_json(p@),
{
    let mut f = Fields::new();
    f.put_text("task_id", p.task_id.as_str());
    f.put_text("artefact_hash", p.artefact_hash.as_str());
    f.put_text("kind", p.kind.as_str());
    f.put_text("scope", p.scope.as_str());
    assert(f@ =~= record_json(p@)->Object_0);
    f.object()
}

/// What a caller can read for a workspace: registers, artefacts, and the labels of
/// artefacts.
pub struct Readings {
    pub register: spec_fn(CtxView, Seq<char>) -> Result<RegisterView, KernelErrorView>,
    pub artefact: spec_fn(CtxView, Seq<char>) -> Result<Seq<u8>, KernelErrorView>,
    pub label: spec_fn(Seq<char>) -> Option<Label>,
}

/// What can be read from a store.
pub open spec fn readings_of(s: StoreView) -> Readings {
    Readings {
        register: |ctx: CtxView, id: Seq<char>| register_read(s, ctx, id),
        artefact: |ctx: CtxView, hash: Seq<char>| artefact_read(s, ctx, hash),
        label: |hash: Seq<char>|
            if s.blobs.contains_key(hash) {
                Some(s.blobs[hash].label)
            } else {
                None
            },
    }
}

/// What a workspace is made from.
pub trait Host {
    /// Whether the host can be asked.
    spec fn ready(&self) -> bool;

    /// What it lets a caller read.
    spec fn readings(&self) -> Readings;

    fn read_register(&self, ctx: &Ctx, id: &str) -> (r: Result<Register, KernelError>)
        requires
            self.ready(),
        ensures
            outcome(r) == (self.readings().register)(ctx@, id@),
    ;

    fn read_artefact(&self, ctx: &Ctx, hash: &str) -> (r: Result<Vec<u8>, KernelError>)
        requires
            self.ready(),
        ensures
            outcome(r) == (self.readings().artefact)(ctx@, hash@),
    ;

    fn artefact_label(&self, hash: &str) -> (r: Option<Label>)
        requires
            self.ready(),
        ensures
            r == (self.readings().label)(hash@),
    ;
}

impl<A> Host for RealKernel<A> {
    open spec fn ready(&self) -> bool {
        self.wf()
    }

    open spec fn readings(&self) -> Readings {
        readings_of(self@.store)
    }

    fn read_register(&self, ctx: &Ctx, id: &str) -> (r: Result<Register, KernelError>) {
        self.read_register(ctx, id)
    }

    fn read_artefact(&self, ctx: &Ctx, hash: &str) -> (r: Result<Vec<u8>, KernelError>) {
        self.read_artefact(ctx, hash)
    }

    fn artefact_label(&self, hash: &str) -> (r: Option<Label>) {
        self.artefact_label(hash)
    }
}

/// A file of the brief: its name, its bytes, and what the record says once it is
/// written.
#[derive(Debug)]
pub struct BriefFile {
    pub name: String,
    pub bytes: Vec<u8>,
    pub record: ProjectionRecord,
}

/// What a [`BriefFile`] says.
#[verifier::ext_equal]
pub struct BriefFileView {
    pub name: Seq<char>,
    pub bytes: Seq<u8>,
    pub record: ProjectionRecordView,
}

impl View for BriefFile {
    type V = BriefFileView;

    open spec fn view(&self) -> BriefFileView {
        BriefFileView { name: self.name@, bytes: self.bytes@, record: self.record@ }
    }
}

/// A workspace to be written: what the harness is for, the plan so far, and the
/// brief. Where an artefact could not be read, what came before it is there and the
/// rest is not, with the reason.
#[derive(Debug)]
pub struct WorkspacePlan {
    pub task_md: String,
    pub plan_md: String,
    pub brief: Vec<BriefFile>,
    pub fault: Option<String>,
}

/// What a [`WorkspacePlan`] says.
#[verifier::ext_equal]
pub struct WorkspacePlanView {
    pub task_md: Seq<char>,
    pub plan_md: Seq<char>,
    pub brief: Seq<BriefFileView>,
    pub fault: Option<Seq<char>>,
}

impl View for WorkspacePlan {
    type V = WorkspacePlanView;

    open spec fn view(&self) -> WorkspacePlanView {
        WorkspacePlanView {
            task_md: self.task_md@,
            plan_md: self.plan_md@,
            brief: all(self.brief@),
            fault: opt(self.fault),
        }
    }
}

/// A bullet for each text.
pub open spec fn bullets(parts: Seq<Seq<char>>) -> Seq<char> {
    crate::ir::prefixed_lines("- "@, parts)
}

/// What the harness is for: the goal, and the constraints where there are any.
pub open spec fn task_text(reg: RegisterView) -> Seq<char> {
    "# Task "@ + reg.task_id + "\n\n## Goal\n"@ + reg.goal + "\n"@ + (if reg.constraints.len()
        == 0 {
        Seq::empty()
    } else {
        "\n## Constraints\n"@ + bullets(reg.constraints)
    })
}

/// The plan so far: the decisions of the register.
pub open spec fn plan_text(reg: RegisterView) -> Seq<char> {
    if reg.decisions.len() == 0 {
        "# Plan\n\n(no plan recorded yet)\n"@
    } else {
        "# Plan\n\n"@ + separated(reg.decisions, "\n\n"@) + "\n"@
    }
}

/// The name of the brief's file for the artefact in this place.
pub open spec fn brief_name(i: nat, kind: Seq<char>) -> Seq<char> {
    (if i < 10 {
        "0"@ + decimal(i)
    } else {
        decimal(i)
    }) + "-"@ + kind
}

/// The scope of an artefact, as the record has it.
pub open spec fn scope_word(label: Option<Label>) -> Seq<char> {
    match label {
        Some(l) => scope_text(l.scope),
        None => "unknown"@,
    }
}

/// The brief of the first `n` artefacts: those that the harness is cleared for, and
/// no others. One that cannot be read for any other reason ends it.
pub open spec fn briefed(
    host: Readings,
    ctx: CtxView,
    task_id: Seq<char>,
    artefacts: Seq<ArtefactRefView>,
    n: nat,
) -> (Seq<BriefFileView>, Option<Seq<char>>)
    decreases n,
{
    if n == 0 {
        (Seq::empty(), None)
    } else {
        let before = briefed(host, ctx, task_id, artefacts, (n - 1) as nat);
        let a = artefacts[n - 1];
        if before.1 is Some {
            before
        } else {
            match (host.artefact)(ctx, a.hash) {
                Ok(bytes) => (
                    before.0.push(
                        BriefFileView {
                            name: brief_name((n - 1) as nat, a.kind),
                            bytes,
                            record: ProjectionRecordView {
                                task_id,
                                artefact_hash: a.hash,
                                kind: a.kind,
                                scope: scope_word((host.label)(a.hash)),
                            },
                        },
                    ),
                    None,
                ),
                Err(KernelErrorView::I2(_)) => before,
                Err(e) => (before.0, Some("read artefact "@ + a.hash + ": "@ + error_text(e))),
            }
        }
    }
}

/// The workspace for a register, at this clearance; nothing when the register itself
/// is above it.
pub open spec fn workspace_of(host: Readings, ctx: CtxView, reg_id: Seq<char>) -> Result<
    WorkspacePlanView,
    Seq<char>,
> {
    match (host.register)(ctx, reg_id) {
        Err(e) => Err("register does not flow to the harness clearance: "@ + error_text(e)),
        Ok(reg) => {
            let (brief, fault) = briefed(
                host,
                ctx,
                reg.task_id,
                reg.artefacts,
                reg.artefacts.len(),
            );
            Ok(
                WorkspacePlanView {
                    task_md: task_text(reg),
                    plan_md: plan_text(reg),
                    brief,
                    fault,
                },
            )
        },
    }
}

fn write_task(reg: &Register) -> (r: String)
    ensures
        r@ == task_text(reg@),
{
    let mut s = cat5(
        "# Task ",
        reg.task_id.as_str(),
        "\n\n## Goal\n",
        reg.goal.as_str(),
        "\n",
    );
    assert(all(reg.constraints@).len() == reg.constraints@.len());
    if reg.constraints.len() > 0 {
        s.append("\n## Constraints\n");
        let ghost head = s@;
        let ghost views = all(reg.constraints@);
        let mut i: usize = 0;
        assert(s@ =~= head + bullets(views.take(0)));
        while i < reg.constraints.len()
            invariant
                i <= reg.constraints@.len(),
                views == all(reg.constraints@),
                s@ == head + bullets(views.take(i as int)),
            decreases reg.constraints@.len() - i,
        {
            assert(views.take(i + 1).drop_last() =~= views.take(i as int));
            assert(views.take(i + 1).last() == reg.constraints@[i as int]@);
            let line = cat3("- ", reg.constraints[i].as_str(), "\n");
            s.append(line.as_str());
            i += 1;
            assert(s@ =~= head + bullets(views.take(i as int)));
        }
        assert(views.take(i as int) =~= views);
    }
    assert(s@ =~= task_text(reg@));
    s
}

fn write_plan(reg: &Register) -> (r: String)
    ensures
        r@ == plan_text(reg@),
{
    assert(all(reg.decisions@).len() == reg.decisions@.len());
    if reg.decisions.len() == 0 {
        return "# Plan\n\n(no plan recorded yet)\n".to_owned();
    }
    let body = join(&reg.decisions, "\n\n");
    cat3("# Plan\n\n", body.as_str(), "\n")
}

fn name_of_brief(i: usize, kind: &str) -> (r: String)
    ensures
        r@ == brief_name(i as nat, kind@),
{
    let n = decimal_text(i as u64);
    if i < 10 {
        cat4("0", n.as_str(), "-", kind)
    } else {
        cat3(n.as_str(), "-", kind)
    }
}

/// The label-projected workspace.
#[derive(Debug)]
pub struct Workspace {}

impl Workspace {
    /// Make a workspace for a register: what is for this clearance, and nothing else.
    pub fn materialise<H: Host>(host: &H, ctx: &Ctx, reg_id: &str) -> (r: Result<
        WorkspacePlan,
        String,
    >)
        requires
            host.ready(),
        ensures
            match r {
                Ok(p) => workspace_of(host.readings(), ctx@, reg_id@) == Ok::<WorkspacePlanView, Seq<char>>(
                    p@,
                ),
                Err(why) => workspace_of(host.readings(), ctx@, reg_id@) == Err::<
                    WorkspacePlanView,
                    Seq<char>,
                >(why@),
            },
    {
        let reg = match host.read_register(ctx, reg_id) {
            Err(e) => {
                let why = e.text();
                return Err(
                    cat("register does not flow to the harness clearance: ", why.as_str()),
                );
            },
            Ok(reg) => reg,
        };
        let task_md = write_task(&reg);
        let plan_md = write_plan(&reg);
        let mut brief: Vec<BriefFile> = Vec::new();
        let mut fault: Option<String> = None;
        let ghost artefacts = all(reg.artefacts@);
        let mut i: usize = 0;
        assert(all(brief@) =~= Seq::<BriefFileView>::empty());
        while i < reg.artefacts.len()
            invariant
                host.ready(),
                i <= reg.artefacts@.len(),
                artefacts == all(reg.artefacts@),
                (all(brief@), opt(fault)) == briefed(
                    host.readings(),
                    ctx@,
                    reg@.task_id,
                    artefacts,
                    i as nat,
                ),
            decreases reg.artefacts@.len() - i,
        {
            let a = &reg.artefacts[i];
            assert(artefacts[i as int] == reg.artefacts@[i as int]@);
            if fault.is_none() {
                match host.read_artefact(ctx, a.hash.as_str()) {
                    Ok(bytes) => {
                        let scope = match host.artefact_label(a.hash.as_str()) {
                            Some(l) => scope_name(l.scope).to_owned(),
                            None => "unknown".to_owned(),
                        };
                        let f = BriefFile {
                            name: name_of_brief(i, a.kind.as_str()),
                            bytes,
                            record: ProjectionRecord {
                                task_id: reg.task_id.dup(),
                                artefact_hash: a.hash.dup(),
                                kind: a.kind.dup(),
                                scope,
                            },
                        };
                        let ghost before = all(brief@);
                        let ghost said = f@;
                        brief.push(f);
                        assert(all(brief@) =~= before.push(said));
                    },
                    Err(KernelError::I2(_)) => {},
                    Err(e) => {
                        let why = e.text();
                        fault = Some(cat4("read artefact ", a.hash.as_str(), ": ", why.as_str()));
                    },
                }
            }
            i += 1;
        }
        Ok(WorkspacePlan { task_md, plan_md, brief, fault })
    }
}

/// The record once the first `n` files of a brief were placed within a harness's reach.
pub open spec fn brief_noted<A>(
    k: KernelView<A>,
    brief: Seq<BriefFileView>,
    n: nat,
    now_ms: u64,
) -> KernelView<A>
    decreases n,
{
    if n == 0 {
        k
    } else {
        with_event(
            brief_noted(k, brief, (n - 1) as nat, now_ms),
            "infer.projected"@,
            now_ms,
            record_json(brief[n - 1].record),
        )
    }
}

impl<A> RealKernel<A> {
    /// Record that the first `n` files of a brief were placed within a harness's reach.
    pub fn log_projections(&mut self, now_ms: u64, brief: &Vec<BriefFile>, n: usize)
        requires
            old(self).wf(),
            n <= brief@.len(),
        ensures
            final(self).wf(),
            final(self)@ == brief_noted(old(self)@, all(brief@), n as nat, now_ms),
    {
        let mut i: usize = 0;
        while i < n
            invariant
                self.wf(),
                i <= n <= brief@.len(),
                self@ == brief_noted(old(self)@, all(brief@), i as nat, now_ms),
            decreases n - i,
        {
            assert(all(brief@)[i as int] == brief@[i as int]@);
            self.log_projection(now_ms, &brief[i].record);
            i += 1;
        }
    }

    /// Record that an artefact was placed within a harness's reach.
    pub fn log_projection(&mut self, now_ms: u64, rec: &ProjectionRecord)
        requires
            old(self).wf(),
        ensures
            final(self).wf(),
            final(self)@ == with_event(
                old(self)@,
                "infer.projected"@,
                now_ms,
                record_json(rec@),
            ),
    {
        self.record_event("infer.projected", now_ms, record_to_json(rec));
    }
}

/// Every file of a brief that was placed within a harness's reach is on the record, in
/// order and by its own name, and nothing else of the kernel is touched.
pub proof fn what_is_placed_is_on_the_record<A>(
    k: KernelView<A>,
    brief: Seq<BriefFileView>,
    n: nat,
    now_ms: u64,
)
    requires
        n <= brief.len(),
    ensures
        ({
            let after = brief_noted(k, brief, n, now_ms);
            &&& after == (KernelView {
                store: StoreView { ledger: after.store.ledger, ..k.store },
                ..k
            })
            &&& after.store.ledger.len() == k.store.ledger.len() + n
            &&& forall|i: int|
                0 <= i < k.store.ledger.len() ==> #[trigger] after.store.ledger[i]
                    == k.store.ledger[i]
            &&& forall|i: int|
                0 <= i < n ==> #[trigger] after.store.ledger[k.store.ledger.len() + i] == (
                LedgerEventView {
                    kind: "infer.projected"@,
                    wall_ms: now_ms,
                    payload: record_json(brief[i].record),
                })
        }),
    decreases n,
{
    if n > 0 {
        what_is_placed_is_on_the_record(k, brief, (n - 1) as nat, now_ms);
    }
}

/// Whatever is in a brief flows to the clearance it was made for, and what is above
/// that clearance is nowhere in it: every file has the bytes of an artefact of the
/// register that may be read there, under a record that names it.
pub proof fn brief_stays_within_clearance(
    s: StoreView,
    ctx: CtxView,
    task_id: Seq<char>,
    artefacts: Seq<ArtefactRefView>,
    n: nat,
    f: int,
)
    requires
        n <= artefacts.len(),
        0 <= f < briefed(readings_of(s), ctx, task_id, artefacts, n).0.len(),
    ensures
        ({
            let file = briefed(readings_of(s), ctx, task_id, artefacts, n).0[f];
            let hash = file.record.artefact_hash;
            &&& s.blobs.contains_key(hash)
            &&& flows(s.blobs[hash].label, ctx.clearance)
            &&& file.bytes == s.blobs[hash].bytes
            &&& file.record.scope == scope_text(s.blobs[hash].label.scope)
            &&& exists|i: int| 0 <= i < n && (#[trigger] artefacts[i]).hash == hash
        }),
    decreases n,
{
    let before = briefed(readings_of(s), ctx, task_id, artefacts, (n - 1) as nat);
    if f < before.0.len() {
        brief_stays_within_clearance(s, ctx, task_id, artefacts, (n - 1) as nat, f);
    } else {
        assert(artefacts[n - 1].hash == briefed(
            readings_of(s),
            ctx,
            task_id,
            artefacts,
            n,
        ).0[f].record.artefact_hash);
    }
}

} // verus!
