//! The scheduler: one step of a task at a time, and what became of it written down.
use crate::adapter::ArchAdapter;
use crate::approvals::human_approved;
use crate::artefacts::{artefact_read, attaching};
use crate::error::{error_text, KernelError, KernelErrorView};
use crate::infer::{infers, InferOutcome, InferOutcomeView};
use crate::json::{text, texts_json, texts_to_json, Fields, Items, Json, JsonView};
use crate::kernel::{outcome, register_read, with_event, KernelView, RealKernel};
use crate::manifest::Capability;
use crate::model::{all, opt, Duplicate};
use crate::outside::{debug_of, debug_text};
use crate::path::{is_below, is_one_name, join_path, joined, leads_down, one_name};
use crate::principal::{Ctx, CtxView};
use crate::register::{ArtefactRef, ArtefactRefView};
use crate::stops::{done, is_stopped};
use crate::store::StoreView;
use crate::task::{
    all_done, next_step, Step, StepKind, StepKindView, StepStatus, StepStatusView, StepView, Task,
    TaskStatus, TaskView,
};
use crate::tasks::{seen, subject_of, task_saved};
use crate::text::{cat3, cat5, chars_of, decimal, decimal_text, text_of};
use vstd::prelude::*;
use vstd::string::*;
use vstd::utf8::encode_utf8;

verus! {

/// What is said of a step that was running when its process ended.
pub const INTERRUPTED: &'static str = "interrupted by restart";

/// The task with another step in this place.
pub open spec fn with_step(t: TaskView, i: int, s: StepView, status: TaskStatus) -> TaskView {
    TaskView { steps: t.steps.update(i, s), status, ..t }
}

/// How running the next step of a task begins.
pub enum StartView {
    /// It does not: this is why.
    Refused(KernelErrorView),
    /// There is nothing to run.
    Over(TaskView),
    /// This step of the task runs; it may have been waiting for a person.
    At { task: TaskView, step: nat, waiting: bool },
}

/// What is said of a harness step that the scheduler is asked to run.
pub open spec fn harness_step_refusal(task_id: Seq<char>, i: nat) -> KernelErrorView {
    KernelErrorView::Gate(
        "step "@ + decimal(i) + " of task "@ + task_id
            + " is a harness step; run it with `vk harness run "@ + task_id + "`"@,
    )
}

/// Beginning the next step of a task. A task that has ended stays as it is, a
/// stopped node stops it, and a step that waits for a person is not begun again.
pub open spec fn beginning<A>(k: KernelView<A>, ctx: CtxView, task_id: Seq<char>) -> (
    KernelView<A>,
    StartView,
) {
    match seen(k.store, ctx, task_id) {
        None => (k, StartView::Refused(KernelErrorView::NotFound(task_id))),
        Some(t) => {
            let n = next_step(t.steps);
            if t.status == TaskStatus::Done || t.status == TaskStatus::Failed {
                (k, StartView::Over(t))
            } else if is_stopped(k, "node"@) {
                (
                    task_saved(k, TaskView { status: TaskStatus::Stopped, ..t }),
                    StartView::Refused(KernelErrorView::Stopped("node"@)),
                )
            } else if n >= t.steps.len() {
                let over = TaskView { status: TaskStatus::Done, ..t };
                (task_saved(k, over), StartView::Over(over))
            } else if t.steps[n as int].kind is Harness {
                (k, StartView::Refused(harness_step_refusal(task_id, n)))
            } else if t.steps[n as int].status is WaitingHuman {
                (k, StartView::At { task: t, step: n, waiting: true })
            } else {
                let begun = with_step(
                    t,
                    n as int,
                    StepView {
                        status: StepStatusView::Running,
                        started_ms: Some(ctx.now_ms),
                        ..t.steps[n as int]
                    },
                    TaskStatus::Running,
                );
                (task_saved(k, begun), StartView::At { task: begun, step: n, waiting: false })
            }
        },
    }
}

/// What a step that ran puts on the record.
pub open spec fn step_event(task_id: Seq<char>, i: nat) -> JsonView {
    JsonView::Array(seq![JsonView::Text(task_id), JsonView::Unsigned(i)])
}

/// Writing down what became of a step: what it is now, or why it failed. A step
/// that still waits changes nothing, and one whose arch is still starting is to be
/// run again.
pub open spec fn settling<A>(
    k: KernelView<A>,
    ctx: CtxView,
    t: TaskView,
    i: nat,
    waiting: bool,
    ran: Result<(StepStatusView, u32), KernelErrorView>,
) -> (KernelView<A>, Result<TaskView, KernelErrorView>) {
    let s = t.steps[i as int];
    match ran {
        Ok((StepStatusView::WaitingHuman, _)) => if waiting {
            (k, Ok(t))
        } else {
            let waits = with_step(
                t,
                i as int,
                StepView { status: StepStatusView::WaitingHuman, ..s },
                TaskStatus::WaitingHuman,
            );
            (
                task_saved(
                    with_event(k, "task.step"@, ctx.now_ms, step_event(t.id, i)),
                    waits,
                ),
                Ok(waits),
            )
        },
        Ok((status, tokens)) => {
            let ended = StepView { status, tokens, ended_ms: Some(ctx.now_ms), ..s };
            let over = all_done(t.steps.update(i as int, ended));
            let went_on = with_step(
                t,
                i as int,
                ended,
                if over {
                    TaskStatus::Done
                } else {
                    TaskStatus::Running
                },
            );
            (
                task_saved(
                    with_event(k, "task.step"@, ctx.now_ms, step_event(t.id, i)),
                    went_on,
                ),
                Ok(went_on),
            )
        },
        Err(KernelErrorView::ArchStarting(id)) => (
            task_saved(
                k,
                with_step(
                    t,
                    i as int,
                    StepView { status: StepStatusView::Pending, started_ms: None, ..s },
                    TaskStatus::Queued,
                ),
            ),
            Err(KernelErrorView::ArchStarting(id)),
        ),
        Err(e) => (
            task_saved(
                k,
                with_step(
                    t,
                    i as int,
                    StepView {
                        status: StepStatusView::Failed(error_text(e)),
                        ended_ms: Some(ctx.now_ms),
                        ..s
                    },
                    TaskStatus::Failed,
                ),
            ),
            Err(e),
        ),
    }
}

/// What an inference makes of its step.
pub open spec fn ran_of(o: Result<InferOutcomeView, KernelErrorView>) -> Result<
    (StepStatusView, u32),
    KernelErrorView,
> {
    match o {
        Ok(out) => Ok((StepStatusView::Done, out.tokens_in)),
        Err(e) => Err(e),
    }
}

/// What a draft makes of its step: what the arch wrote is attached as the task's
/// artefact.
pub open spec fn drafted<A>(
    k: KernelView<A>,
    ctx: CtxView,
    arch_id: Seq<char>,
    reg_id: Seq<char>,
    artefact_type: Seq<char>,
    o: Result<InferOutcomeView, KernelErrorView>,
) -> (KernelView<A>, Result<(StepStatusView, u32), KernelErrorView>) {
    match o {
        Err(e) => (k, Err(e)),
        Ok(out) => match register_read(k.store, ctx, reg_id) {
            Err(e) => (k, Err(e)),
            Ok(reg) => if reg.decisions.len() == 0 {
                (
                    k,
                    Err(
                        KernelErrorView::Gate(
                            "arch "@ + arch_id + " returned nothing to attach as the task's "@
                                + artefact_type,
                        ),
                    ),
                )
            } else {
                let (after, attached) = attaching(
                    k,
                    ctx,
                    reg_id,
                    artefact_type,
                    encode_utf8(reg.decisions.last()),
                );
                match attached {
                    Err(e) => (after, Err(e)),
                    Ok(_) => (after, Ok((StepStatusView::Done, out.tokens_in))),
                }
            },
        },
    }
}

/// What becomes of an approve step: it is done once a person has approved what it
/// names, and waits until then.
pub open spec fn approved_step(s: StoreView, ctx: CtxView, task_id: Seq<char>) -> Result<
    (StepStatusView, u32),
    KernelErrorView,
> {
    match subject_of(s, ctx, task_id) {
        Err(e) => Err(e),
        Ok(subject) => if human_approved(s, subject) {
            Ok((StepStatusView::Done, 0))
        } else {
            Ok((StepStatusView::WaitingHuman, 0))
        },
    }
}

/// The one directory that releases go under.
pub open spec fn export_root_of(s: StoreView) -> Seq<char> {
    joined(s.state_dir, "exports"@, s.windows)
}

/// Where a release goes, if it may.
pub open spec fn release_to(s: StoreView, to_dir: Seq<char>) -> Result<Seq<char>, KernelErrorView> {
    if leads_down(to_dir, s.windows) {
        Ok(joined(export_root_of(s), to_dir, s.windows))
    } else {
        Err(
            KernelErrorView::Gate(
                "release destination must be a relative subpath of the export root"@,
            ),
        )
    }
}

/// The shortest start of `s`, from `n` characters on, that is this many bytes long.
pub open spec fn start_of_bytes(s: Seq<char>, n: nat, bytes: nat) -> Option<Seq<char>>
    decreases s.len() + 1 - n,
{
    if n > s.len() {
        None
    } else if encode_utf8(s.take(n as int)).len() == bytes {
        Some(s.take(n as int))
    } else {
        start_of_bytes(s, n + 1, bytes)
    }
}

/// The short form of an artefact's address that its file is named after.
pub open spec fn short_hash(hash: Seq<char>) -> Seq<char> {
    match start_of_bytes(crate::adapter::without_prefixes(hash, "sha256:"@), 0, 12) {
        Some(s) => s,
        None => "artefact"@,
    }
}

/// The name an artefact is released under.
pub open spec fn release_name(hash: Seq<char>, kind: Seq<char>) -> Seq<char> {
    short_hash(hash) + "."@ + kind
}

/// What is said of a kind that makes no file name.
pub open spec fn not_a_file_name(kind: Seq<char>) -> KernelErrorView {
    KernelErrorView::Gate("artefact kind "@ + debug_text(kind) + " is not a plain file name"@)
}

/// One file of a release: the artefact, and the name it is released under.
#[derive(Debug)]
pub struct ReleaseFile {
    pub hash: String,
    pub name: String,
}

/// What a [`ReleaseFile`] says.
#[verifier::ext_equal]
pub struct ReleaseFileView {
    pub hash: Seq<char>,
    pub name: Seq<char>,
}

impl View for ReleaseFile {
    type V = ReleaseFileView;

    open spec fn view(&self) -> ReleaseFileView {
        ReleaseFileView { hash: self.hash@, name: self.name@ }
    }
}

/// The files of a release, or the first artefact that makes none.
pub open spec fn release_files(artefacts: Seq<ArtefactRefView>, windows: bool) -> Result<
    Seq<ReleaseFileView>,
    KernelErrorView,
>
    decreases artefacts.len(),
{
    if artefacts.len() == 0 {
        Ok(Seq::empty())
    } else {
        match release_files(artefacts.drop_last(), windows) {
            Err(e) => Err(e),
            Ok(files) => {
                let a = artefacts.last();
                let name = release_name(a.hash, a.kind);
                if is_one_name(name, windows) {
                    Ok(files.push(ReleaseFileView { hash: a.hash, name }))
                } else {
                    Err(not_a_file_name(a.kind))
                }
            },
        }
    }
}

/// The addresses of artefacts.
pub open spec fn hashes_of(artefacts: Seq<ArtefactRefView>) -> Seq<Seq<char>> {
    artefacts.map_values(|a: ArtefactRefView| a.hash)
}

/// What a release puts on the record.
pub open spec fn release_json(task_id: Seq<char>, hashes: Seq<Seq<char>>, to: Seq<char>) -> JsonView {
    JsonView::Object(
        seq![
            ("task_id"@, JsonView::Text(task_id)),
            ("hashes"@, texts_json(hashes)),
            ("destination"@, JsonView::Text(to)),
        ],
    )
}

/// The bytes of the first `n` files, read under the clearance of who releases them. One
/// that cannot be read ends it.
pub open spec fn release_bytes(
    s: StoreView,
    ctx: CtxView,
    files: Seq<ReleaseFileView>,
    n: nat,
) -> (Seq<Seq<u8>>, Option<KernelErrorView>)
    decreases n,
{
    if n == 0 {
        (Seq::empty(), None)
    } else {
        let before = release_bytes(s, ctx, files, (n - 1) as nat);
        if before.1 is Some {
            before
        } else {
            match artefact_read(s, ctx, files[n - 1].hash) {
                Ok(bytes) => (before.0.push(bytes), None),
                Err(e) => (before.0, Some(e)),
            }
        }
    }
}

/// A release that is on the record and still to be carried out: the step it ends,
/// the directory it goes to, the files, and what is to be in them. Where an artefact
/// could not be read, there are the bytes of the files before it, and the reason.
#[derive(Debug)]
pub struct Releasing {
    pub task: Task,
    pub step: usize,
    pub root: String,
    pub dest: String,
    pub files: Vec<ReleaseFile>,
    pub bytes: Vec<Vec<u8>>,
    pub fault: Option<KernelError>,
}

/// What a [`Releasing`] says.
#[verifier::ext_equal]
pub struct ReleasingView {
    pub task: TaskView,
    pub step: nat,
    pub root: Seq<char>,
    pub dest: Seq<char>,
    pub files: Seq<ReleaseFileView>,
    pub bytes: Seq<Seq<u8>>,
    pub fault: Option<KernelErrorView>,
}

impl View for Releasing {
    type V = ReleasingView;

    open spec fn view(&self) -> ReleasingView {
        ReleasingView {
            task: self.task@,
            step: self.step as nat,
            root: self.root@,
            dest: self.dest@,
            files: all(self.files@),
            bytes: all(self.bytes@),
            fault: opt(self.fault),
        }
    }
}

/// Planning a release: every refusal comes before anything is recorded, and the
/// record has the release before a byte leaves.
pub open spec fn releasing<A>(
    k: KernelView<A>,
    ctx: CtxView,
    t: TaskView,
    i: nat,
    to_dir: Seq<char>,
) -> (KernelView<A>, Result<ReleasingView, KernelErrorView>) {
    match register_read(k.store, ctx, t.register) {
        Err(e) => (k, Err(e)),
        Ok(reg) => match release_to(k.store, to_dir) {
            Err(e) => (k, Err(e)),
            Ok(dest) => match release_files(reg.artefacts, k.store.windows) {
                Err(e) => (k, Err(e)),
                Ok(files) => (
                    with_event(
                        k,
                        "artefact.released"@,
                        ctx.now_ms,
                        release_json(t.id, hashes_of(reg.artefacts), dest),
                    ),
                    Ok(
                        ReleasingView {
                            task: t,
                            step: i,
                            root: export_root_of(k.store),
                            dest,
                            files,
                            bytes: release_bytes(k.store, ctx, files, files.len()).0,
                            fault: release_bytes(k.store, ctx, files, files.len()).1,
                        },
                    ),
                ),
            },
        },
    }
}

/// What a release makes of its step: it is done when every file was read and written.
pub open spec fn released(p: ReleasingView, written: Result<(), KernelErrorView>) -> Result<
    (StepStatusView, u32),
    KernelErrorView,
> {
    match written {
        Err(e) => Err(e),
        Ok(()) => match p.fault {
            Some(e) => Err(e),
            None => Ok((StepStatusView::Done, 0u32)),
        },
    }
}

/// What running a step gave.
#[derive(Debug)]
pub enum StepRun {
    /// The task as it now is.
    Settled(Task),
    /// Files to be written, before the step can be settled.
    Releasing(Releasing),
}

/// What a [`StepRun`] says.
pub enum StepRunView {
    Settled(TaskView),
    Releasing(ReleasingView),
}

impl View for StepRun {
    type V = StepRunView;

    open spec fn view(&self) -> StepRunView {
        match self {
            StepRun::Settled(t) => StepRunView::Settled(t@),
            StepRun::Releasing(r) => StepRunView::Releasing(r@),
        }
    }
}

/// A settled step, as what running it gave.
pub open spec fn settled_run(r: Result<TaskView, KernelErrorView>) -> Result<
    StepRunView,
    KernelErrorView,
> {
    match r {
        Ok(t) => Ok(StepRunView::Settled(t)),
        Err(e) => Err(e),
    }
}

/// Whether a step that is an inference may take the kernel from `k` to `after`, with
/// this result.
pub open spec fn works_by_inference<A: ArchAdapter>(
    k: KernelView<A>,
    ctx: CtxView,
    t: TaskView,
    arch_id: Seq<char>,
    capability: Capability,
    after: KernelView<A>,
    ran: Result<(StepStatusView, u32), KernelErrorView>,
) -> bool {
    exists|o: Result<InferOutcomeView, KernelErrorView>|
        ran == ran_of(o) && #[trigger] infers(
            k,
            ctx,
            arch_id,
            capability,
            t.register,
            after,
            o,
        )
}

/// Whether a step that drafts the artefact may take the kernel from `k` to `after`,
/// with this result.
pub open spec fn works_by_drafting<A: ArchAdapter>(
    k: KernelView<A>,
    ctx: CtxView,
    t: TaskView,
    arch_id: Seq<char>,
    after: KernelView<A>,
    ran: Result<(StepStatusView, u32), KernelErrorView>,
) -> bool {
    exists|mid: KernelView<A>, o: Result<InferOutcomeView, KernelErrorView>|
        (after, ran) == drafted(mid, ctx, arch_id, t.register, t.artefact_type, o)
            && #[trigger] infers(
            k,
            ctx,
            arch_id,
            Capability::Generate,
            t.register,
            mid,
            o,
        )
}

/// Whether doing the work of a step may take the kernel from `k` to `after`, with
/// this result. A release is none of these steps.
pub open spec fn works<A: ArchAdapter>(
    k: KernelView<A>,
    ctx: CtxView,
    t: TaskView,
    kind: StepKindView,
    after: KernelView<A>,
    ran: Result<(StepStatusView, u32), KernelErrorView>,
) -> bool {
    match kind {
        StepKindView::Plan { arch_id } => works_by_inference(
            k,
            ctx,
            t,
            arch_id,
            Capability::Plan,
            after,
            ran,
        ),
        StepKindView::Judge { arch_id } => works_by_inference(
            k,
            ctx,
            t,
            arch_id,
            Capability::Judge,
            after,
            ran,
        ),
        StepKindView::Draft { arch_id } => works_by_drafting(k, ctx, t, arch_id, after, ran),
        StepKindView::Approve => after == k && ran == approved_step(k.store, ctx, t.id),
        StepKindView::Harness { .. } => after == k && ran == Err::<
            (StepStatusView, u32),
            KernelErrorView,
        >(
            KernelErrorView::Gate(
                "harness steps are run by `vk harness run`, not the generic scheduler"@,
            ),
        ),
        StepKindView::Release { .. } => false,
    }
}

/// Whether running the next step of a task may take the kernel from `k` to `after`,
/// with this result.
pub open spec fn steps_to<A: ArchAdapter>(
    k: KernelView<A>,
    ctx: CtxView,
    task_id: Seq<char>,
    after: KernelView<A>,
    r: Result<StepRunView, KernelErrorView>,
) -> bool {
    match beginning(k, ctx, task_id) {
        (begun, StartView::Refused(e)) => after == begun && r == Err::<
            StepRunView,
            KernelErrorView,
        >(e),
        (begun, StartView::Over(t)) => after == begun && r == Ok::<StepRunView, KernelErrorView>(
            StepRunView::Settled(t),
        ),
        (begun, StartView::At { task, step, waiting }) => match task.steps[step as int].kind {
            StepKindView::Release { to_dir } => match releasing(begun, ctx, task, step, to_dir) {
                (planned, Ok(p)) => after == planned && r == Ok::<StepRunView, KernelErrorView>(
                    StepRunView::Releasing(p),
                ),
                (planned, Err(e)) => {
                    let (settled, out) = settling(planned, ctx, task, step, waiting, Err(e));
                    after == settled && r == settled_run(out)
                },
            },
            kind => exists|
                worked: KernelView<A>,
                ran: Result<(StepStatusView, u32), KernelErrorView>,
            | #[trigger]
                works(begun, ctx, task, kind, worked, ran) && after == settling(
                    worked,
                    ctx,
                    task,
                    step,
                    waiting,
                    ran,
                ).0 && r == settled_run(settling(worked, ctx, task, step, waiting, ran).1),
        },
    }
}

pub(crate) fn step_event_json(task_id: &str, i: usize) -> (r: Json)
    ensures
        r@ == step_event(task_id@, i as nat),
{
    let mut items = Items::new();
    items.add(text(task_id));
    items.add(Json::Unsigned(i as u64));
    assert(items@ =~= step_event(task_id@, i as nat)->Array_0);
    items.array()
}

fn put_step(t: &mut Task, i: usize, s: Step, status: TaskStatus)
    requires
        i < old(t).steps@.len(),
    ensures
        final(t)@ == with_step(old(t)@, i as int, s@, status),
        final(t).steps@.len() == old(t).steps@.len(),
{
    let ghost before = all(t.steps@);
    let ghost said = s@;
    t.steps.set(i, s);
    assert(all(t.steps@) =~= before.update(i as int, said));
    t.status = status;
}

fn shorten(hash: &str) -> (r: String)
    ensures
        r@ == short_hash(hash@),
{
    let bare = crate::adapter::strip_prefixes(hash, "sha256:");
    let v = chars_of(bare.as_str());
    let mut n: usize = 0;
    loop
        invariant
            n <= v@.len(),
            v@ == bare@,
            bare@ == crate::adapter::without_prefixes(hash@, "sha256:"@),
            start_of_bytes(bare@, 0, 12) == start_of_bytes(bare@, n as nat, 12),
        decreases v@.len() - n,
    {
        let start = text_of(&v, 0, n);
        assert(v@.subrange(0, n as int) =~= bare@.take(n as int));
        if start.as_str().as_bytes().len() == 12 {
            return start;
        }
        if n == v.len() {
            assert(start_of_bytes(bare@, n as nat, 12) == start_of_bytes(bare@, (n + 1) as nat, 12));
            return "artefact".to_owned();
        }
        n += 1;
    }
}

fn release_file_name(hash: &str, kind: &str, windows: bool) -> (r: Result<String, KernelError>)
    ensures
        r is Ok <==> is_one_name(release_name(hash@, kind@), windows),
        r matches Ok(name) ==> name@ == release_name(hash@, kind@),
        r matches Err(e) ==> e@ == not_a_file_name(kind@),
{
    let short = shorten(hash);
    let name = cat3(short.as_str(), ".", kind);
    if one_name(name.as_str(), windows) {
        Ok(name)
    } else {
        Err(
            KernelError::Gate(
                cat3("artefact kind ", debug_of(kind).as_str(), " is not a plain file name"),
            ),
        )
    }
}

pub(crate) fn plan_files(artefacts: &Vec<ArtefactRef>, windows: bool) -> (r: Result<
    Vec<ReleaseFile>,
    KernelError,
>)
    ensures
        match r {
            Ok(files) => release_files(all(artefacts@), windows) == Ok::<
                Seq<ReleaseFileView>,
                KernelErrorView,
            >(all(files@)),
            Err(e) => release_files(all(artefacts@), windows) == Err::<
                Seq<ReleaseFileView>,
                KernelErrorView,
            >(e@),
        },
{
    let ghost views = all(artefacts@);
    let mut files: Vec<ReleaseFile> = Vec::new();
    let mut i: usize = 0;
    assert(all(files@) =~= Seq::<ReleaseFileView>::empty());
    assert(views.take(0) =~= Seq::<ArtefactRefView>::empty());
    while i < artefacts.len()
        invariant
            i <= artefacts@.len(),
            views == all(artefacts@),
            release_files(views.take(i as int), windows) == Ok::<Seq<ReleaseFileView>, KernelErrorView>(
                all(files@),
            ),
        decreases artefacts@.len() - i,
    {
        assert(views.take(i + 1).drop_last() =~= views.take(i as int));
        assert(views.take(i + 1).last() == artefacts@[i as int]@);
        let a = &artefacts[i];
        match release_file_name(a.hash.as_str(), a.kind.as_str(), windows) {
            Err(e) => {
                proof {
                    refusal_stays(views, i + 1, windows);
                }
                return Err(e);
            },
            Ok(name) => {
                let ghost before = all(files@);
                let f = ReleaseFile { hash: a.hash.dup(), name };
                let ghost said = f@;
                files.push(f);
                assert(all(files@) =~= before.push(said));
            },
        }
        i += 1;
    }
    assert(views.take(i as int) =~= views);
    Ok(files)
}

proof fn refusal_stays(views: Seq<ArtefactRefView>, n: int, windows: bool)
    requires
        0 <= n <= views.len(),
        release_files(views.take(n), windows) is Err,
    ensures
        release_files(views, windows) == release_files(views.take(n), windows),
    decreases views.len() - n,
{
    if n < views.len() {
        assert(views.take(n + 1).drop_last() =~= views.take(n));
        refusal_stays(views, n + 1, windows);
    } else {
        assert(views.take(n) =~= views);
    }
}

proof fn same_artefacts_same_bytes(
    a: StoreView,
    b: StoreView,
    ctx: CtxView,
    files: Seq<ReleaseFileView>,
    n: nat,
)
    requires
        a.blobs == b.blobs,
    ensures
        release_bytes(a, ctx, files, n) == release_bytes(b, ctx, files, n),
    decreases n,
{
    if n > 0 {
        same_artefacts_same_bytes(a, b, ctx, files, (n - 1) as nat);
    }
}

fn list_hashes(artefacts: &Vec<ArtefactRef>) -> (r: Vec<String>)
    ensures
        all(r@) == hashes_of(all(artefacts@)),
{
    let mut r: Vec<String> = Vec::new();
    let mut i: usize = 0;
    while i < artefacts.len()
        invariant
            i <= artefacts@.len(),
            r@.len() == i,
            forall|j: int| 0 <= j < i ==> (#[trigger] r@[j])@ == artefacts@[j]@.hash,
        decreases artefacts@.len() - i,
    {
        r.push(artefacts[i].hash.dup());
        i += 1;
    }
    assert(all(r@) =~= hashes_of(all(artefacts@)));
    r
}

/// What running a step gave, as a status and tokens.
pub open spec fn ran_view(r: Result<(StepStatus, u32), KernelError>) -> Result<
    (StepStatusView, u32),
    KernelErrorView,
> {
    match r {
        Ok((s, n)) => Ok((s@, n)),
        Err(e) => Err(e@),
    }
}

fn inferred_step(o: Result<InferOutcome, KernelError>) -> (r: Result<
    (StepStatus, u32),
    KernelError,
>)
    ensures
        ran_view(r) == ran_of(outcome(o)),
{
    match o {
        Ok(out) => Ok((StepStatus::Done, out.tokens_in)),
        Err(e) => Err(e),
    }
}

impl<A> RealKernel<A> {
    /// The one directory that releases go under.
    pub fn export_root(&self) -> (r: String)
        ensures
            r@ == export_root_of(self@.store),
    {
        join_path(self.store.state_dir.as_str(), "exports", self.store.windows)
    }

    /// Where a release goes, if it may: somewhere under the export root.
    pub fn release_dest(&self, to_dir: &str) -> (r: Result<String, KernelError>)
        ensures
            outcome(r) == release_to(self@.store, to_dir@),
    {
        if is_below(to_dir, self.store.windows) {
            let root = self.export_root();
            Ok(join_path(root.as_str(), to_dir, self.store.windows))
        } else {
            Err(
                KernelError::Gate(
                    "release destination must be a relative subpath of the export root".to_owned(),
                ),
            )
        }
    }

    fn begin_step(&mut self, ctx: &Ctx, t: &mut Task, i: usize)
        requires
            old(self).wf(),
            i < old(t).steps@.len(),
        ensures
            final(self).wf(),
            final(t)@ == with_step(
                old(t)@,
                i as int,
                (StepView {
                    status: StepStatusView::Running,
                    started_ms: Some(ctx.now_ms),
                    ..old(t)@.steps[i as int]
                }),
                TaskStatus::Running,
            ),
            final(t).steps@.len() == old(t).steps@.len(),
            final(self)@ == task_saved(old(self)@, final(t)@),
    {
        let mut s = t.steps[i].dup();
        s.status = StepStatus::Running;
        s.started_ms = Some(ctx.now_ms);
        put_step(t, i, s, TaskStatus::Running);
        self.save_task(t);
    }

    /// Write down what became of a step.
    pub(crate) fn settle_step(
        &mut self,
        ctx: &Ctx,
        task: Task,
        i: usize,
        waiting: bool,
        ran: Result<(StepStatus, u32), KernelError>,
    ) -> (r: Result<Task, KernelError>)
        requires
            old(self).wf(),
            i < task.steps@.len(),
        ensures
            final(self).wf(),
            (final(self)@, outcome(r)) == settling(
                old(self)@,
                ctx@,
                task@,
                i as nat,
                waiting,
                ran_view(ran),
            ),
    {
        let mut t = task;
        let mut s = t.steps[i].dup();
        match ran {
            Ok((StepStatus::WaitingHuman, _)) => {
                if waiting {
                    return Ok(t);
                }
                s.status = StepStatus::WaitingHuman;
                put_step(&mut t, i, s, TaskStatus::WaitingHuman);
            },
            Ok((status, tokens)) => {
                s.status = status;
                s.tokens = tokens;
                s.ended_ms = Some(ctx.now_ms);
                put_step(&mut t, i, s, TaskStatus::Running);
                if t.finished() {
                    t.status = TaskStatus::Done;
                }
            },
            Err(e) => {
                if let KernelError::ArchStarting(_) = e {
                    s.status = StepStatus::Pending;
                    s.started_ms = None;
                    put_step(&mut t, i, s, TaskStatus::Queued);
                } else {
                    s.status = StepStatus::Failed(e.text());
                    s.ended_ms = Some(ctx.now_ms);
                    put_step(&mut t, i, s, TaskStatus::Failed);
                }
                self.save_task(&t);
                return Err(e);
            },
        }
        self.record_event("task.step", ctx.now_ms, step_event_json(t.id.as_str(), i));
        self.save_task(&t);
        Ok(t)
    }

    fn approve_step(&self, ctx: &Ctx, task_id: &str) -> (r: Result<(StepStatus, u32), KernelError>)
        requires
            self.wf(),
        ensures
            ran_view(r) == approved_step(self@.store, ctx@, task_id@),
    {
        match self.approval_subject(ctx, task_id) {
            Err(e) => Err(e),
            Ok(subject) => if self.has_human_approval(subject.as_str()) {
                Ok((StepStatus::Done, 0))
            } else {
                Ok((StepStatus::WaitingHuman, 0))
            },
        }
    }

    fn attach_draft(
        &mut self,
        ctx: &Ctx,
        arch_id: &str,
        t: &Task,
        o: Result<InferOutcome, KernelError>,
    ) -> (r: Result<(StepStatus, u32), KernelError>)
        requires
            old(self).wf(),
        ensures
            final(self).wf(),
            (final(self)@, ran_view(r)) == drafted(
                old(self)@,
                ctx@,
                arch_id@,
                t@.register,
                t@.artefact_type,
                outcome(o),
            ),
    {
        let out = match o {
            Err(e) => return Err(e),
            Ok(out) => out,
        };
        let reg = match self.read_register(ctx, t.register.as_str()) {
            Err(e) => return Err(e),
            Ok(reg) => reg,
        };
        let n: usize = reg.decisions.len();
        assert(all(reg.decisions@).len() == n);
        if n == 0 {
            let head = cat3("arch ", arch_id, " returned nothing to attach as the task's ");
            return Err(
                KernelError::Gate(
                    crate::text::cat(head.as_str(), t.artefact_type.as_str()),
                ),
            );
        }
        assert(all(reg.decisions@).last() == reg.decisions@[n - 1]@);
        let newest = reg.decisions[n - 1].as_str();
        match self.attach_artefact(
            ctx,
            t.register.as_str(),
            t.artefact_type.as_str(),
            newest.as_bytes(),
        ) {
            Err(e) => Err(e),
            Ok(_) => Ok((StepStatus::Done, out.tokens_in)),
        }
    }

    fn read_files(&self, ctx: &Ctx, files: &Vec<ReleaseFile>) -> (r: (
        Vec<Vec<u8>>,
        Option<KernelError>,
    ))
        requires
            self.wf(),
        ensures
            (all(r.0@), opt(r.1)) == release_bytes(
                self@.store,
                ctx@,
                all(files@),
                files@.len(),
            ),
    {
        let mut bytes: Vec<Vec<u8>> = Vec::new();
        let mut fault: Option<KernelError> = None;
        let mut i: usize = 0;
        assert(all(bytes@) =~= Seq::<Seq<u8>>::empty());
        while i < files.len()
            invariant
                self.wf(),
                i <= files@.len(),
                (all(bytes@), opt(fault)) == release_bytes(
                    self@.store,
                    ctx@,
                    all(files@),
                    i as nat,
                ),
            decreases files@.len() - i,
        {
            assert(all(files@)[i as int] == files@[i as int]@);
            if fault.is_none() {
                match self.read_artefact(ctx, files[i].hash.as_str()) {
                    Ok(b) => {
                        let ghost before = all(bytes@);
                        let ghost said = b@;
                        bytes.push(b);
                        assert(all(bytes@) =~= before.push(said));
                    },
                    Err(e) => {
                        fault = Some(e);
                    },
                }
            }
            i += 1;
        }
        (bytes, fault)
    }

    pub(crate) fn plan_release(&mut self, ctx: &Ctx, t: &Task, i: usize, to_dir: &str) -> (r: Result<
        Releasing,
        KernelError,
    >)
        requires
            old(self).wf(),
        ensures
            final(self).wf(),
            (final(self)@, outcome(r)) == releasing(old(self)@, ctx@, t@, i as nat, to_dir@),
    {
        let reg = match self.read_register(ctx, t.register.as_str()) {
            Err(e) => return Err(e),
            Ok(reg) => reg,
        };
        let dest = match self.release_dest(to_dir) {
            Err(e) => return Err(e),
            Ok(dest) => dest,
        };
        let files = match plan_files(&reg.artefacts, self.store.windows) {
            Err(e) => return Err(e),
            Ok(files) => files,
        };
        let hashes = list_hashes(&reg.artefacts);
        let mut f = Fields::new();
        f.put_text("task_id", t.id.as_str());
        f.put("hashes", texts_to_json(&hashes));
        f.put_text("destination", dest.as_str());
        assert(f@ =~= release_json(t@.id, hashes_of(reg@.artefacts), dest@)->Object_0);
        self.record_event("artefact.released", ctx.now_ms, f.object());
        let root = self.export_root();
        let (bytes, fault) = self.read_files(ctx, &files);
        proof {
            same_artefacts_same_bytes(
                old(self)@.store,
                self@.store,
                ctx@,
                all(files@),
                files@.len(),
            );
        }
        Ok(Releasing { task: t.dup(), step: i, root, dest, files, bytes, fault })
    }

    /// Settle a release once its files were written, or why they were not. One whose
    /// artefacts could not all be read has failed, whatever was written.
    pub fn settle_release(
        &mut self,
        ctx: &Ctx,
        release: Releasing,
        written: Result<(), KernelError>,
    ) -> (r: Result<Task, KernelError>)
        requires
            old(self).wf(),
            release.step < release.task.steps@.len(),
        ensures
            final(self).wf(),
            (final(self)@, outcome(r)) == settling(
                old(self)@,
                ctx@,
                release.task@,
                release.step as nat,
                false,
                released(release@, done(written)),
            ),
    {
        let ran: Result<(StepStatus, u32), KernelError> = match written {
            Err(e) => Err(e),
            Ok(()) => match release.fault {
                Some(e) => Err(e),
                None => Ok((StepStatus::Done, 0)),
            },
        };
        self.settle_step(ctx, release.task, release.step, false, ran)
    }
}

impl<A: ArchAdapter> RealKernel<A> {
    /// Do the work of one step, and report what it became and the tokens it spent.
    fn run_step(&mut self, ctx: &Ctx, t: &Task, kind: &StepKind) -> (r: Result<
        (StepStatus, u32),
        KernelError,
    >)
        requires
            old(self).wf(),
            !(kind@ is Release),
        ensures
            final(self).wf(),
            works(old(self)@, ctx@, t@, kind@, final(self)@, ran_view(r)),
    {
        match kind {
            StepKind::Plan { arch_id } => {
                let o = self.infer(ctx, arch_id.as_str(), Capability::Plan, t.register.as_str());
                let ghost said = outcome(o);
                let ran = inferred_step(o);
                assert(infers(
                    old(self)@,
                    ctx@,
                    arch_id@,
                    Capability::Plan,
                    t@.register,
                    self@,
                    said,
                ) && ran_view(ran) == ran_of(said));
                assert(works(old(self)@, ctx@, t@, kind@, self@, ran_view(ran)));
                ran
            },
            StepKind::Draft { arch_id } => {
                let o = self.infer(
                    ctx,
                    arch_id.as_str(),
                    Capability::Generate,
                    t.register.as_str(),
                );
                let ghost said = outcome(o);
                let ghost mid = self@;
                let ran = self.attach_draft(ctx, arch_id.as_str(), t, o);
                assert(infers(
                    old(self)@,
                    ctx@,
                    arch_id@,
                    Capability::Generate,
                    t@.register,
                    mid,
                    said,
                ));
                assert((self@, ran_view(ran)) == drafted(
                    mid,
                    ctx@,
                    arch_id@,
                    t@.register,
                    t@.artefact_type,
                    said,
                ));
                assert(works(old(self)@, ctx@, t@, kind@, self@, ran_view(ran)));
                ran
            },
            StepKind::Judge { arch_id } => {
                let o = self.infer(ctx, arch_id.as_str(), Capability::Judge, t.register.as_str());
                let ghost said = outcome(o);
                let ran = inferred_step(o);
                assert(infers(
                    old(self)@,
                    ctx@,
                    arch_id@,
                    Capability::Judge,
                    t@.register,
                    self@,
                    said,
                ) && ran_view(ran) == ran_of(said));
                assert(works(old(self)@, ctx@, t@, kind@, self@, ran_view(ran)));
                ran
            },
            StepKind::Approve => self.approve_step(ctx, t.id.as_str()),
            _ => Err(
                KernelError::Gate(
                    "harness steps are run by `vk harness run`, not the generic scheduler".to_owned(),
                ),
            ),
        }
    }

    /// Run the next step of a task that is not done, and only that one. What becomes
    /// of it is written down before anything else is tried, and a step that fails
    /// says why on its row as well as to the caller.
    pub fn run_task_step(&mut self, ctx: &Ctx, task_id: &str) -> (r: Result<StepRun, KernelError>)
        requires
            old(self).wf(),
        ensures
            final(self).wf(),
            steps_to(old(self)@, ctx@, task_id@, final(self)@, outcome(r)),
    {
        let mut t = match self.task(ctx, task_id) {
            Some(t) => t,
            None => return Err(KernelError::NotFound(task_id.to_owned())),
        };
        if t.status == TaskStatus::Done || t.status == TaskStatus::Failed {
            return Ok(StepRun::Settled(t));
        }
        if self.stopped("node") {
            t.status = TaskStatus::Stopped;
            self.save_task(&t);
            return Err(KernelError::Stopped("node".to_owned()));
        }
        let i: usize = t.next();
        if i == t.steps.len() {
            t.status = TaskStatus::Done;
            self.save_task(&t);
            return Ok(StepRun::Settled(t));
        }
        let kind = t.steps[i].kind.dup();
        if let StepKind::Harness { .. } = kind {
            let n = decimal_text(i as u64);
            let head = cat5(
                "step ",
                n.as_str(),
                " of task ",
                task_id,
                " is a harness step; run it with `vk harness run ",
            );
            return Err(KernelError::Gate(cat3(head.as_str(), task_id, "`")));
        }
        let waiting = match t.steps[i].status {
            StepStatus::WaitingHuman => true,
            _ => false,
        };
        if !waiting {
            self.begin_step(ctx, &mut t, i);
        }
        let ghost begun = self@;
        if let StepKind::Release { to_dir } = &kind {
            return match self.plan_release(ctx, &t, i, to_dir.as_str()) {
                Ok(p) => Ok(StepRun::Releasing(p)),
                Err(e) => match self.settle_step(ctx, t, i, waiting, Err(e)) {
                    Ok(t) => Ok(StepRun::Settled(t)),
                    Err(e) => Err(e),
                },
            };
        }
        let ran = self.run_step(ctx, &t, &kind);
        let ghost worked = self@;
        let ghost what = ran_view(ran);
        assert(works(begun, ctx@, t@, kind@, worked, what));
        match self.settle_step(ctx, t, i, waiting, ran) {
            Ok(t) => Ok(StepRun::Settled(t)),
            Err(e) => Err(e),
        }
    }
}

} // verus!
