//! What each kind of step does to its task, its register and its artefacts.
use crate::adapter::{ArchAdapter, CompletionView};
use crate::approvals::human_approved;
use crate::artefacts::attaching;
use crate::error::{error_text, KernelErrorView};
use crate::infer::{asking, infers, InferOutcomeView};
use crate::infer_laws::inference_raises_the_answer;
use crate::json::JsonView;
use crate::kernel::{filed, KernelView};
use crate::manifest::Capability;
use crate::principal::CtxView;
use crate::register::RegisterView;
use crate::scheduler::{
    beginning, drafted, ran_of, settled_run, settling, steps_to, works, works_by_drafting,
    works_by_inference, StepRunView,
};
use crate::stops::is_stopped;
use crate::store::StoreView;
use crate::task::{next_step, next_step_is_first, StepKindView, StepStatusView, TaskStatus, TaskView};
use crate::tasks::{seen, subject_of};
use crate::text::trimmed;
use vstd::prelude::*;
use vstd::utf8::encode_utf8;

verus! {

/// Whether the task with this id is at this step: somebody may see it, it has not ended, and
/// every step before this one is done and this one is not.
pub open spec fn stands_at_step(s: StoreView, ctx: CtxView, id: Seq<char>, t: TaskView, n: int) -> bool {
    &&& seen(s, ctx, id) == Some(t)
    &&& t.status != TaskStatus::Done
    &&& t.status != TaskStatus::Failed
    &&& 0 <= n < t.steps.len()
    &&& forall|i: int| 0 <= i < n ==> (#[trigger] t.steps[i]).status is Done
    &&& !(t.steps[n].status is Done)
}

/// The next step of a task is the one it stands at.
pub proof fn next_step_is_where_it_stands(s: StoreView, ctx: CtxView, id: Seq<char>, t: TaskView, n: int)
    requires
        stands_at_step(s, ctx, id, t, n),
    ensures
        next_step(t.steps) == n,
{
    next_step_is_first(t.steps);
    let m = next_step(t.steps) as int;
    if m < n {
        assert(t.steps[m].status is Done);
    }
    if n < m {
        assert(t.steps[n].status is Done);
    }
}

/// A step that begins says so: it runs from now on, and so does its task; nothing else of the
/// task and nothing else of the kernel changes. One that waits for a person goes on waiting.
pub proof fn step_that_begins_runs<A>(k: KernelView<A>, ctx: CtxView, id: Seq<char>, t: TaskView, n: int)
    requires
        filed(k.store),
        !is_stopped(k, "node"@),
        stands_at_step(k.store, ctx, id, t, n),
        !(t.steps[n].kind is Harness),
    ensures
        ({
            let (after, start) = beginning(k, ctx, id);
            let begun = start->task;
            &&& start is At
            &&& start->step == n
            &&& start->waiting == (t.steps[n].status is WaitingHuman)
            &&& start->waiting ==> after == k && begun == t
            &&& !start->waiting ==> {
                &&& begun.status == TaskStatus::Running
                &&& begun.steps.len() == t.steps.len()
                &&& begun.steps[n].status is Running
                &&& begun.steps[n].started_ms == Some(ctx.now_ms)
                &&& begun.steps[n].ended_ms == t.steps[n].ended_ms
                &&& begun.steps[n].tokens == t.steps[n].tokens
                &&& after.store.tasks == k.store.tasks.insert(id, begun)
                &&& after == (KernelView {
                    store: StoreView { tasks: after.store.tasks, ..k.store },
                    ..k
                })
            }
            &&& begun.steps[n].kind == t.steps[n].kind
            &&& forall|i: int| 0 <= i < t.steps.len() && i != n ==> begun.steps[i] == #[trigger] t.steps[i]
            &&& begun.id == id
            &&& begun.register == t.register
            &&& begun.goal == t.goal
            &&& begun.artefact_type == t.artefact_type
            &&& begun.created_ms == t.created_ms
        }),
{
    next_step_is_where_it_stands(k.store, ctx, id, t, n);
    assert(k.store.tasks.contains_key(id));
}

/// A harness step is not begun by the scheduler, and the refusal leaves no trace.
pub proof fn harness_step_is_left_to_its_run<A>(k: KernelView<A>, ctx: CtxView, id: Seq<char>, t: TaskView, n: int)
    requires
        !is_stopped(k, "node"@),
        stands_at_step(k.store, ctx, id, t, n),
        t.steps[n].kind is Harness,
    ensures
        beginning(k, ctx, id).0 == k,
        beginning(k, ctx, id).1 is Refused,
        beginning(k, ctx, id).1->Refused_0 is Gate,
{
    next_step_is_where_it_stands(k.store, ctx, id, t, n);
}

/// A task whose steps are all done is done.
pub proof fn task_without_a_step_left_is_done<A>(k: KernelView<A>, ctx: CtxView, id: Seq<char>, t: TaskView)
    requires
        filed(k.store),
        !is_stopped(k, "node"@),
        seen(k.store, ctx, id) == Some(t),
        t.status != TaskStatus::Done,
        t.status != TaskStatus::Failed,
        forall|i: int| 0 <= i < t.steps.len() ==> (#[trigger] t.steps[i]).status is Done,
    ensures
        ({
            let (after, start) = beginning(k, ctx, id);
            &&& start is Over
            &&& start->Over_0 == (TaskView { status: TaskStatus::Done, ..t })
            &&& after.store.tasks == k.store.tasks.insert(id, start->Over_0)
            &&& after == (KernelView {
                store: StoreView { tasks: after.store.tasks, ..k.store },
                ..k
            })
        }),
{
    next_step_is_first(t.steps);
    assert(k.store.tasks.contains_key(id));
}

/// A step that was done says when it ended and what it took, and its task is done exactly
/// when every step is. The record has the task and the step, at that time; and nothing else
/// changes.
pub proof fn step_that_ran_is_done<A>(
    k: KernelView<A>,
    ctx: CtxView,
    t: TaskView,
    i: nat,
    waiting: bool,
    tokens: u32,
)
    requires
        i < t.steps.len(),
    ensures
        ({
            let (after, r) = settling(k, ctx, t, i, waiting, Ok((StepStatusView::Done, tokens)));
            let now = r->Ok_0;
            let e = after.store.ledger.last();
            &&& r is Ok
            &&& now.steps.len() == t.steps.len()
            &&& now.steps[i as int].status is Done
            &&& now.steps[i as int].tokens == tokens
            &&& now.steps[i as int].ended_ms == Some(ctx.now_ms)
            &&& now.steps[i as int].started_ms == t.steps[i as int].started_ms
            &&& now.steps[i as int].kind == t.steps[i as int].kind
            &&& forall|j: int| 0 <= j < t.steps.len() && j != i ==> now.steps[j] == #[trigger] t.steps[j]
            &&& now.status == TaskStatus::Done || now.status == TaskStatus::Running
            &&& now.status == TaskStatus::Done <==> forall|j: int|
                0 <= j < t.steps.len() && j != i ==> (#[trigger] t.steps[j]).status is Done
            &&& now == (TaskView { steps: now.steps, status: now.status, ..t })
            &&& after.store.tasks == k.store.tasks.insert(t.id, now)
            &&& after.store.ledger == k.store.ledger.push(e)
            &&& e.kind == "task.step"@
            &&& e.wall_ms == ctx.now_ms
            &&& e.payload == JsonView::Array(
                seq![JsonView::Text(t.id), JsonView::Unsigned(i)],
            )
            &&& after == (KernelView {
                store: StoreView {
                    tasks: after.store.tasks,
                    ledger: after.store.ledger,
                    ..k.store
                },
                ..k
            })
        }),
{
    let now = settling(k, ctx, t, i, waiting, Ok((StepStatusView::Done, tokens))).1->Ok_0;
    assert forall|j: int| 0 <= j < t.steps.len() && j != i implies now.steps[j] == #[trigger] t.steps[j] by {}
    if forall|j: int| 0 <= j < t.steps.len() && j != i ==> (#[trigger] t.steps[j]).status is Done {
        assert forall|j: int| 0 <= j < now.steps.len() implies (#[trigger] now.steps[j]).status is Done by {
            if j != i {
                assert(now.steps[j] == t.steps[j]);
            }
        }
    } else {
        let j = choose|j: int|
            0 <= j < t.steps.len() && j != i && !((#[trigger] t.steps[j]).status is Done);
        assert(now.steps[j] == t.steps[j]);
    }
}

/// A step that comes to wait for a person says so, and so does its task; nothing has ended.
pub proof fn step_that_waits_says_so<A>(k: KernelView<A>, ctx: CtxView, t: TaskView, i: nat, tokens: u32)
    requires
        i < t.steps.len(),
    ensures
        ({
            let (after, r) = settling(k, ctx, t, i, false, Ok((StepStatusView::WaitingHuman, tokens)));
            let now = r->Ok_0;
            &&& r is Ok
            &&& now.status == TaskStatus::WaitingHuman
            &&& now.steps[i as int].status is WaitingHuman
            &&& now.steps[i as int].ended_ms == t.steps[i as int].ended_ms
            &&& now.steps[i as int].started_ms == t.steps[i as int].started_ms
            &&& now.steps[i as int].kind == t.steps[i as int].kind
            &&& after.store.tasks == k.store.tasks.insert(t.id, now)
            &&& after.store.ledger.len() == k.store.ledger.len() + 1
            &&& after.store.ledger.last().kind == "task.step"@
            &&& after.store.registers == k.store.registers
        }),
{
}

/// A step that fails says when it ended, and touches nothing but its task: what it has of a
/// record, a register or an artefact stays as it was when it failed.
pub proof fn failed_step_touches_its_task_alone<A>(
    k: KernelView<A>,
    ctx: CtxView,
    t: TaskView,
    i: nat,
    waiting: bool,
    e: KernelErrorView,
)
    requires
        i < t.steps.len(),
    ensures
        ({
            let (after, r) = settling(k, ctx, t, i, waiting, Err(e));
            let now = after.store.tasks[t.id];
            &&& r == Err::<TaskView, KernelErrorView>(e)
            &&& after.store.tasks == k.store.tasks.insert(t.id, now)
            &&& after == (KernelView {
                store: StoreView { tasks: after.store.tasks, ..k.store },
                ..k
            })
            &&& !(e is ArchStarting) ==> {
                &&& now.status == TaskStatus::Failed
                &&& now.steps[i as int].status == StepStatusView::Failed(error_text(e))
                &&& now.steps[i as int].ended_ms == Some(ctx.now_ms)
                &&& now.steps[i as int].started_ms == t.steps[i as int].started_ms
            }
            &&& e is ArchStarting ==> {
                &&& now.status == TaskStatus::Queued
                &&& now.steps[i as int].status is Pending
                &&& now.steps[i as int].started_ms is None
            }
            &&& now.steps[i as int].kind == t.steps[i as int].kind
        }),
{
}

/// What an inference step did: the arch of the step answered the prompt of the task's own
/// register, the answer is the newest entry there, and the step says what it took.
pub proof fn inference_step_raises_its_answer<A: ArchAdapter>(
    k: KernelView<A>,
    ctx: CtxView,
    id: Seq<char>,
    t: TaskView,
    n: int,
    after: KernelView<A>,
    r: Result<StepRunView, KernelErrorView>,
) -> (c: CompletionView)
    requires
        filed(k.store),
        stands_at_step(k.store, ctx, id, t, n),
        t.steps[n].kind is Plan || t.steps[n].kind is Judge,
        steps_to(k, ctx, id, after, r),
        r is Ok,
    ensures
        ({
            let reg = k.store.registers[t.register];
            let now = after.store.registers[t.register];
            let task = r->Ok_0->Settled_0;
            &&& r->Ok_0 is Settled
            &&& t.steps[n].kind matches StepKindView::Plan { arch_id } ==> now == (RegisterView {
                decisions: reg.decisions.push("plan: "@ + trimmed(c.text)),
                ..reg
            }) && k.adapters.contains_key(arch_id) && exists|prompt: Seq<char>, limit: nat| #[trigger]
                k.adapters[arch_id].may_answer(prompt, limit, Ok(c))
            &&& t.steps[n].kind matches StepKindView::Judge { arch_id } ==> now == (RegisterView {
                open_questions: reg.open_questions.push("judge: "@ + trimmed(c.text)),
                ..reg
            }) && k.adapters.contains_key(arch_id) && exists|prompt: Seq<char>, limit: nat| #[trigger]
                k.adapters[arch_id].may_answer(prompt, limit, Ok(c))
            &&& task.steps[n].status is Done
            &&& task.steps[n].ended_ms == Some(ctx.now_ms)
            &&& c.tokens_in_measured is Some ==> task.steps[n].tokens == c.tokens_in_measured->0
            &&& after.store.tasks[id] == task
            &&& after.store.blobs == k.store.blobs
        }),
{
    next_step_is_where_it_stands(k.store, ctx, id, t, n);
    assert(k.store.tasks.contains_key(id));
    let (begun, start) = beginning(k, ctx, id);
    let task = start->task;
    let waiting = start->waiting;
    assert(start is At && start->step == n);
    assert(task.steps[n].kind == t.steps[n].kind);
    let kind = task.steps[n].kind;
    let (worked, ran) = choose|
        worked: KernelView<A>,
        ran: Result<(StepStatusView, u32), KernelErrorView>,
    | #[trigger]
        works(begun, ctx, task, kind, worked, ran) && after == settling(
            worked,
            ctx,
            task,
            n as nat,
            waiting,
            ran,
        ).0 && r == settled_run(settling(worked, ctx, task, n as nat, waiting, ran).1);
    let (arch_id, capability) = match kind {
        StepKindView::Plan { arch_id } => (arch_id, Capability::Plan),
        StepKindView::Judge { arch_id } => (arch_id, Capability::Judge),
        _ => (Seq::empty(), Capability::Plan),
    };
    assert(works_by_inference(begun, ctx, task, arch_id, capability, worked, ran));
    let o = choose|o: Result<InferOutcomeView, KernelErrorView>|
        ran == ran_of(o) && #[trigger] infers(
            begun,
            ctx,
            arch_id,
            capability,
            task.register,
            worked,
            o,
        );
    let c = inference_raises_the_answer(begun, ctx, arch_id, capability, task.register, worked, o);
    let a = asking(begun, ctx, arch_id, capability, task.register).1->Ok_0;
    assert(k.adapters[arch_id].may_answer(
        a.prompt,
        (if a.budget <= 1024 {
            a.budget
        } else {
            1024
        }) as nat,
        Ok(c),
    ));
    step_that_ran_is_done(worked, ctx, task, n as nat, waiting, o->Ok_0.tokens_in);
    c
}

/// What a draft step attaches is what the arch just wrote: the newest artefact of the task's
/// register has the bytes of the answer of this very call, under the kind that the task was
/// made for, however many decisions and artefacts there were before.
pub proof fn draft_step_attaches_its_answer<A: ArchAdapter>(
    k: KernelView<A>,
    ctx: CtxView,
    id: Seq<char>,
    t: TaskView,
    n: int,
    after: KernelView<A>,
    r: Result<StepRunView, KernelErrorView>,
) -> (c: CompletionView)
    requires
        filed(k.store),
        stands_at_step(k.store, ctx, id, t, n),
        t.steps[n].kind is Draft,
        steps_to(k, ctx, id, after, r),
        r is Ok,
    ensures
        ({
            let reg = k.store.registers[t.register];
            let now = after.store.registers[t.register];
            let task = r->Ok_0->Settled_0;
            let arch_id = t.steps[n].kind->Draft_arch_id;
            let newest = now.artefacts.last();
            let said = "draft: "@ + trimmed(c.text);
            &&& r->Ok_0 is Settled
            &&& k.adapters.contains_key(arch_id)
            &&& exists|prompt: Seq<char>, limit: nat| #[trigger]
                k.adapters[arch_id].may_answer(prompt, limit, Ok(c))
            &&& now.decisions == reg.decisions.push(said)
            &&& now.artefacts.len() == reg.artefacts.len() + 1
            &&& now.artefacts.drop_last() == reg.artefacts
            &&& newest.kind == t.artefact_type
            &&& after.store.blobs.contains_key(newest.hash)
            &&& after.store.blobs[newest.hash].bytes == encode_utf8(said)
            &&& after.store.blobs[newest.hash].label == reg.label
            &&& now.open_questions == reg.open_questions
            &&& now.goal == reg.goal
            &&& now.label == reg.label
            &&& task.steps[n].status is Done
            &&& c.tokens_in_measured is Some ==> task.steps[n].tokens == c.tokens_in_measured->0
            &&& after.store.tasks[id] == task
        }),
{
    next_step_is_where_it_stands(k.store, ctx, id, t, n);
    assert(k.store.tasks.contains_key(id));
    let (begun, start) = beginning(k, ctx, id);
    let task = start->task;
    let waiting = start->waiting;
    assert(start is At && start->step == n);
    assert(task.steps[n].kind == t.steps[n].kind);
    let kind = task.steps[n].kind;
    let arch_id = kind->Draft_arch_id;
    let (worked, ran) = choose|
        worked: KernelView<A>,
        ran: Result<(StepStatusView, u32), KernelErrorView>,
    | #[trigger]
        works(begun, ctx, task, kind, worked, ran) && after == settling(
            worked,
            ctx,
            task,
            n as nat,
            waiting,
            ran,
        ).0 && r == settled_run(settling(worked, ctx, task, n as nat, waiting, ran).1);
    assert(works_by_drafting(begun, ctx, task, arch_id, worked, ran));
    let (mid, o) = choose|mid: KernelView<A>, o: Result<InferOutcomeView, KernelErrorView>|
        (worked, ran) == drafted(mid, ctx, arch_id, task.register, task.artefact_type, o)
            && #[trigger] infers(
            begun,
            ctx,
            arch_id,
            Capability::Generate,
            task.register,
            mid,
            o,
        );
    let c = inference_raises_the_answer(
        begun,
        ctx,
        arch_id,
        Capability::Generate,
        task.register,
        mid,
        o,
    );
    let a = asking(begun, ctx, arch_id, Capability::Generate, task.register).1->Ok_0;
    assert(k.adapters[arch_id].may_answer(
        a.prompt,
        (if a.budget <= 1024 {
            a.budget
        } else {
            1024
        }) as nat,
        Ok(c),
    ));
    let reg = k.store.registers[t.register];
    let held = mid.store.registers[t.register];
    assert(held.decisions.last() == "draft: "@ + trimmed(c.text));
    let (_, attached) = attaching(
        mid,
        ctx,
        t.register,
        t.artefact_type,
        encode_utf8("draft: "@ + trimmed(c.text)),
    );
    assert(held.id == t.register);
    assert(worked.store.registers[t.register].artefacts.drop_last() =~= reg.artefacts);
    step_that_ran_is_done(worked, ctx, task, n as nat, waiting, o->Ok_0.tokens_in);
    c
}

/// While a task stands at its approve step and nobody has approved what it waits with, running
/// the step leaves it waiting for a person; once a person has, the step is done. Neither
/// changes anything but the task and the record.
pub proof fn approve_step_waits_for_a_person<A: ArchAdapter>(
    k: KernelView<A>,
    ctx: CtxView,
    id: Seq<char>,
    t: TaskView,
    n: int,
    after: KernelView<A>,
    r: Result<StepRunView, KernelErrorView>,
)
    requires
        filed(k.store),
        !is_stopped(k, "node"@),
        stands_at_step(k.store, ctx, id, t, n),
        t.steps[n].kind is Approve,
        steps_to(k, ctx, id, after, r),
    ensures
        ({
            let task = r->Ok_0->Settled_0;
            let subject = subject_of(k.store, ctx, id)->Ok_0;
            &&& subject_of(k.store, ctx, id) is Ok
            &&& r is Ok
            &&& r->Ok_0 is Settled
            &&& after.store.tasks.contains_key(id)
            &&& after.store.tasks[id] == task
            &&& !human_approved(k.store, subject) ==> task.steps[n].status is WaitingHuman
            &&& human_approved(k.store, subject) ==> task.steps[n].status is Done
            &&& after == (KernelView {
                store: StoreView {
                    tasks: after.store.tasks,
                    ledger: after.store.ledger,
                    ..k.store
                },
                ..k
            })
        }),
{
    next_step_is_where_it_stands(k.store, ctx, id, t, n);
    assert(k.store.tasks.contains_key(id));
    let (begun, start) = beginning(k, ctx, id);
    let task = start->task;
    let waiting = start->waiting;
    assert(start is At && start->step == n);
    let kind = task.steps[n].kind;
    assert(kind is Approve);
    next_step_is_first(task.steps);
    assert(begun.store.tasks[id] == task);
    assert(next_step(task.steps) == n) by {
        let m = next_step(task.steps) as int;
        if m < n {
            assert(task.steps[m] == t.steps[m]);
        }
        if n < m {
            assert(task.steps[n].status is Done);
        }
    }
    assert(subject_of(begun.store, ctx, id) == subject_of(k.store, ctx, id));
    let (worked, ran) = choose|
        worked: KernelView<A>,
        ran: Result<(StepStatusView, u32), KernelErrorView>,
    | #[trigger]
        works(begun, ctx, task, kind, worked, ran) && after == settling(
            worked,
            ctx,
            task,
            n as nat,
            waiting,
            ran,
        ).0 && r == settled_run(settling(worked, ctx, task, n as nat, waiting, ran).1);
    assert(worked == begun);
    assert(human_approved(begun.store, subject_of(k.store, ctx, id)->Ok_0) == human_approved(
        k.store,
        subject_of(k.store, ctx, id)->Ok_0,
    ));
}

/// What an approval has to name is the newest artefact: once bytes are attached to the
/// register of a task that stands at its approve step, the subject is the artefact that they
/// became, for everybody who may see the task.
pub proof fn newest_artefact_is_the_subject<A>(
    k: KernelView<A>,
    ctx: CtxView,
    kind: Seq<char>,
    bytes: Seq<u8>,
    reader: CtxView,
    id: Seq<char>,
    t: TaskView,
    n: int,
)
    requires
        filed(k.store),
        stands_at_step(k.store, reader, id, t, n),
        t.steps[n].kind is Approve,
        attaching(k, ctx, t.register, kind, bytes).1 is Ok,
    ensures
        subject_of(attaching(k, ctx, t.register, kind, bytes).0.store, reader, id) == Ok::<
            Seq<char>,
            KernelErrorView,
        >(attaching(k, ctx, t.register, kind, bytes).1->Ok_0.hash),
{
    next_step_is_where_it_stands(k.store, reader, id, t, n);
}

/// An artefact that nobody has approved is not carried by an approval of an earlier one: once
/// it is attached, the approve step of its task goes on waiting for a person.
pub proof fn later_artefact_leaves_approvals_behind<A: ArchAdapter>(
    k: KernelView<A>,
    ctx: CtxView,
    kind: Seq<char>,
    bytes: Seq<u8>,
    reader: CtxView,
    id: Seq<char>,
    t: TaskView,
    n: int,
    after: KernelView<A>,
    r: Result<StepRunView, KernelErrorView>,
)
    requires
        filed(k.store),
        !is_stopped(k, "node"@),
        stands_at_step(k.store, reader, id, t, n),
        t.steps[n].kind is Approve,
        attaching(k, ctx, t.register, kind, bytes).1 is Ok,
        !human_approved(k.store, attaching(k, ctx, t.register, kind, bytes).1->Ok_0.hash),
        steps_to(attaching(k, ctx, t.register, kind, bytes).0, reader, id, after, r),
    ensures
        r is Ok,
        r->Ok_0 is Settled,
        r->Ok_0->Settled_0.steps[n].status is WaitingHuman,
{
    let (attached, e) = attaching(k, ctx, t.register, kind, bytes);
    let h = e->Ok_0.hash;
    newest_artefact_is_the_subject(k, ctx, kind, bytes, reader, id, t, n);
    assert(k.store.registers[t.register].id == t.register);
    assert(stands_at_step(attached.store, reader, id, t, n));
    assert(!is_stopped(attached, "node"@)) by {
        if is_stopped(attached, "node"@) {
            let s = choose|s: Seq<char>| #[trigger] crate::stops::holds(attached, s, "node"@);
            assert(crate::stops::holds(k, s, "node"@));
        }
    }
    assert(human_approved(attached.store, h) == human_approved(k.store, h));
    approve_step_waits_for_a_person(attached, reader, id, t, n, after, r);
}

} // verus!
