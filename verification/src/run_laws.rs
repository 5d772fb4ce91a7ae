//! What a run of a harness is given, what it may attach, and what is made of what it left.
use crate::artefacts::{address, attaching, task_subject};
use crate::harness::{
    attaching_file, breach, collecting, connections_json, connections_of, declared_at, file_path,
    harness_ended, harness_settling, harness_step_json, harvest, launching, materialising,
    out_names, session_of, FileReadView, HarnessLaunchView, HarnessStartView, OutFileView,
    UnwrittenView,
};
use crate::hash::text_hash;
use crate::json::{bool_field, field, member, number_field, text_field, texts_json, JsonView};
use crate::kernel::KernelView;
use crate::labels::{Clearance, Scope};
use crate::launch::{exit_label, launch_args, move_of, ExitReason, HarnessRun, Move};
use crate::model::all;
use crate::path::{joined, leads_down};
use crate::principal::{CtxView, PrincipalView};
use crate::reading_laws::member_is_found;
use crate::register::RegisterView;
use crate::runs::run_json;
use crate::store::StoreView;
use crate::task::{StepStatusView, TaskStatus, TaskView};
use crate::tasks::seen;
use vstd::prelude::*;

verus! {

/// A token stands for a run exactly while the run is live: the token is known, its lease is
/// kept, is the lease of its task's harness and is not over, and the task is there. It is then
/// the machine that holds the lease, up to the business's own data, for that task and that
/// task's register alone.
pub proof fn token_stands_for_its_run<A>(k: KernelView<A>, token: Seq<char>, now: u64)
    ensures
        ({
            let state = k.harness_tokens[text_hash(token)];
            let lease = k.store.leases[state.lease_id];
            let r = session_of(k, token, now);
            let s = r->Ok_0;
            &&& r is Ok <==> {
                &&& k.harness_tokens.contains_key(text_hash(token))
                &&& k.store.leases.contains_key(state.lease_id)
                &&& now < lease.expires_at_ms
                &&& lease.resource == "harness:"@ + state.task_id
                &&& k.store.tasks.contains_key(state.task_id)
            }
            &&& r is Ok ==> {
                &&& s.task_id == state.task_id
                &&& s.register == k.store.tasks[state.task_id].register
                &&& s.ctx.principal == PrincipalView::Machine {
                    node_id: k.node_id,
                    lease_id: state.lease_id,
                }
                &&& s.ctx.clearance == (Clearance {
                    max_scope: Scope::Business,
                    third_party_allowed: false,
                })
                &&& s.ctx.partition == lease.partition
                &&& s.ctx.now_ms == now
            }
        }),
{
}

/// A run is launched for the harness step that its task stands at, by the name that the step
/// has: what it is given says where its workspace is, which step it is, and how many artefacts
/// there were before. Its lease is of its task's harness, held by the run itself for as long as
/// the run may take and be settled; and the task is not touched yet.
pub proof fn launch_is_of_the_tasks_step<A>(
    k: KernelView<A>,
    ctx: CtxView,
    task_id: Seq<char>,
    name: Seq<char>,
    timeout_ms: u64,
    run: Seq<char>,
    token: Seq<char>,
)
    requires
        launching(k, ctx, task_id, name, timeout_ms, run, token).1 is Ok,
    ensures
        ({
            let (after, r) = launching(k, ctx, task_id, name, timeout_ms, run, token);
            let s = r->Ok_0;
            let t = k.store.tasks[task_id];
            let n = s.launch.step_index as int;
            let lease = after.store.leases[s.launch.lease_id];
            &&& seen(k.store, ctx, task_id) == Some(t)
            &&& s.task == t
            &&& 0 <= n < t.steps.len()
            &&& forall|i: int| 0 <= i < n ==> (#[trigger] t.steps[i]).status is Done
            &&& !(t.steps[n].status is Done) && !(t.steps[n].status is Running)
            &&& t.steps[n].kind is Harness
            &&& t.steps[n].kind->name == name
            &&& s.launch.name == name
            &&& s.launch.token == token
            &&& s.launch.artefacts_before == k.store.registers[t.register].artefacts.len()
            &&& s.launch.workspace == joined(
                joined(k.store.state_dir, "harness"@, k.store.windows),
                task_id,
                k.store.windows,
            )
            &&& s.launch.config_dir == joined(
                joined(k.store.state_dir, "harness"@, k.store.windows),
                task_id + ".mcp"@,
                k.store.windows,
            )
            &&& after.store.leases.contains_key(s.launch.lease_id)
            &&& lease.resource == "harness:"@ + task_id
            &&& lease.holder == PrincipalView::Machine {
                node_id: k.node_id,
                lease_id: "harness-run:"@ + run,
            }
            &&& lease.partition == ctx.partition
            &&& lease.granted_at_ms == ctx.now_ms
            &&& ctx.now_ms + timeout_ms + 300_000 <= u64::MAX ==> lease.expires_at_ms == ctx.now_ms
                + timeout_ms + 300_000
            &&& after.harness_tokens.contains_key(text_hash(token))
            &&& after.harness_tokens[text_hash(token)].task_id == task_id
            &&& after.harness_tokens[text_hash(token)].lease_id == s.launch.lease_id
            &&& after.harness_tokens[text_hash(token)].bytes_attached == 0
            &&& after.harness_tokens[text_hash(token)].oversize is None
            &&& after.store.tasks == k.store.tasks
            &&& after.store.registers == k.store.registers
            &&& after.store.blobs == k.store.blobs
            &&& after.store.approvals == k.store.approvals
        }),
{
    crate::task::next_step_is_first(k.store.tasks[task_id].steps);
}

/// Once the workspace was written the step of the launch is running from now on, and its task
/// with it; no other step and no other task changes.
pub proof fn run_begins_once_its_workspace_is_there<A>(
    k: KernelView<A>,
    ctx: CtxView,
    start: HarnessStartView,
    written: Result<(), UnwrittenView>,
    j: int,
)
    requires
        start.launch.step_index < start.task.steps.len(),
        0 <= j < start.task.steps.len(),
    ensures
        ({
            let (after, r) = materialising(k, ctx, start, written);
            let i = start.launch.step_index as int;
            let t = start.task;
            let u = after.store.tasks[t.id];
            &&& r is Ok <==> written is Ok && start.plan.fault is None
            &&& r is Ok ==> {
                &&& r->Ok_0 == start.launch
                &&& after.store.tasks == k.store.tasks.insert(t.id, u)
                &&& u.status == TaskStatus::Running
                &&& u.steps.len() == t.steps.len()
                &&& u.steps[i].status is Running
                &&& u.steps[i].started_ms == Some(ctx.now_ms)
                &&& u.steps[i].kind == t.steps[i].kind
                &&& j != i ==> u.steps[j] == t.steps[j]
                &&& u == (TaskView { steps: u.steps, status: u.status, ..t })
                &&& after.harness_tokens == k.harness_tokens
                &&& after.locks == k.locks
            }
            &&& after.store.registers == k.store.registers
        }),
{
    let n = crate::harness::brief_placed(start.plan, written);
    crate::workspace::what_is_placed_is_on_the_record(k, start.plan.brief, n, ctx.now_ms);
}

/// A file of a workspace is named by a path that leads down from it, and lies below it.
pub proof fn file_lies_in_the_workspace(s: StoreView, task_id: Seq<char>, rel: Seq<char>)
    ensures
        file_path(s, task_id, rel) is Ok <==> leads_down(rel, s.windows),
        leads_down(rel, s.windows) ==> file_path(s, task_id, rel)->Ok_0 == joined(
            joined(joined(s.state_dir, "harness"@, s.windows), task_id, s.windows),
            rel,
            s.windows,
        ),
        !leads_down(rel, s.windows) ==> file_path(s, task_id, rel)->Err_0 is Gate,
{
}

/// One file may be two mebibytes long, and one run may attach sixteen of them in all.
pub proof fn limits_are_on_a_file_and_on_a_run(rel: Seq<char>, len: u64, attached: u64)
    ensures
        breach(rel, len, attached) is None <==> len <= 2 * 1024 * 1024 && attached + len <= 16 * 1024
            * 1024,
{
}

/// What a harness attaches is the file it named, with that file's bytes, as the newest artefact
/// of its own task's register, under that register's label; its length is added to what the run
/// has attached. It is attached whenever the session holds, the path stays in the workspace,
/// the file can be read and is within the limits, and the register takes it.
pub proof fn attached_file_is_the_newest_artefact<A>(
    k: KernelView<A>,
    token: Seq<char>,
    now: u64,
    kind: Seq<char>,
    rel: Seq<char>,
    file: FileReadView,
)
    requires
        crate::kernel::filed(k.store),
        session_of(k, token, now) is Ok,
    ensures
        ({
            let (after, r) = attaching_file(k, token, now, kind, rel, file);
            let s = session_of(k, token, now)->Ok_0;
            let key = text_hash(token);
            let was = k.harness_tokens[key];
            let is = after.harness_tokens[key];
            let reg = k.store.registers[s.register];
            let seen_after = after.store.registers[s.register];
            &&& r is Ok <==> {
                &&& leads_down(rel, k.store.windows)
                &&& file.len is Ok
                &&& breach(rel, file.len->Ok_0, was.bytes_attached) is None
                &&& file.bytes is Ok
                &&& attaching(k, s.ctx, s.register, kind, file.bytes->Ok_0).1 is Ok
            }
            &&& r is Ok ==> {
                &&& seen_after.artefacts.len() == reg.artefacts.len() + 1
                &&& seen_after.artefacts.drop_last() == reg.artefacts
                &&& seen_after.artefacts.last().hash == r->Ok_0.hash
                &&& seen_after.artefacts.last().kind == kind
                &&& seen_after.decisions == reg.decisions
                &&& after.store.blobs[r->Ok_0.hash].bytes == file.bytes->Ok_0
                &&& after.store.blobs[r->Ok_0.hash].label == reg.label
                &&& is.bytes_attached == was.bytes_attached + file.len->Ok_0
                &&& is.oversize == was.oversize
                &&& is.task_id == was.task_id && is.lease_id == was.lease_id
            }
            &&& r is Err ==> {
                &&& after.store == k.store
                &&& is.bytes_attached == was.bytes_attached
            }
            &&& r is Err && was.oversize is Some ==> is.oversize == was.oversize
            &&& leads_down(rel, k.store.windows) && file.len is Ok && breach(
                rel,
                file.len->Ok_0,
                was.bytes_attached,
            ) is Some && was.oversize is None ==> is.oversize == Some(rel)
            &&& forall|other: Seq<char>|
                other != key ==> after.harness_tokens.contains_key(other)
                    == k.harness_tokens.contains_key(other) && #[trigger] after.harness_tokens[other]
                    == k.harness_tokens[other]
        }),
{
    let s = session_of(k, token, now)->Ok_0;
    if file.bytes is Ok && attaching(k, s.ctx, s.register, kind, file.bytes->Ok_0).1 is Ok {
        crate::task_laws::attached_bytes_are_the_newest_artefact(
            k,
            s.ctx,
            s.register,
            kind,
            file.bytes->Ok_0,
        );
    }
}

/// What is collected of a run that attached nothing itself is its declared output: the bytes of
/// that file become the newest artefact of the task's register, under the kind that the task
/// was made for, unless the register has them already.
pub proof fn declared_output_is_collected<A>(
    k: KernelView<A>,
    ctx: CtxView,
    task_id: Seq<char>,
    launch: HarnessLaunchView,
    out: Seq<OutFileView>,
)
    requires
        crate::kernel::filed(k.store),
        k.store.tasks.contains_key(task_id),
        collecting(k, ctx, task_id, launch, out).1 is Ok,
        k.store.registers[k.store.tasks[task_id].register].artefacts.len()
            <= launch.artefacts_before,
    ensures
        ({
            let after = collecting(k, ctx, task_id, launch, out).0;
            let t = k.store.tasks[task_id];
            let reg = k.store.registers[t.register];
            let now = after.store.registers[t.register];
            let found = declared_at(out_names(out), t.artefact_type, out.len());
            let i = found->0;
            let hash = address(task_subject(reg.task_id), out[i].file.bytes->Ok_0);
            &&& found is Some
            &&& 0 <= i < out.len()
            &&& out[i].file.bytes is Ok
            &&& out[i].file.len matches Ok(len) ==> len <= 2 * 1024 * 1024
            &&& exists|a: int| 0 <= a < now.artefacts.len() && (#[trigger] now.artefacts[a]).hash
                == hash
            &&& after == k || {
                &&& now.artefacts.len() == reg.artefacts.len() + 1
                &&& now.artefacts.last().hash == hash
                &&& now.artefacts.last().kind == t.artefact_type
                &&& after.store.blobs[hash].bytes == out[i].file.bytes->Ok_0
                &&& after.store.blobs[hash].label == reg.label
                &&& now.artefacts.drop_last() == reg.artefacts
            }
        }),
{
    let t = k.store.tasks[task_id];
    let reg = k.store.registers[t.register];
    crate::harness::declared_output_is_the_first(out_names(out), t.artefact_type, out.len());
    let i = declared_at(out_names(out), t.artefact_type, out.len())->0;
    let bytes = out[i].file.bytes->Ok_0;
    let after = collecting(k, ctx, task_id, launch, out).0;
    let now = after.store.registers[t.register];
    if harvest(k, ctx, task_id, launch, out)->Ok_0 is Some {
        crate::task_laws::attached_bytes_are_the_newest_artefact(
            k,
            ctx,
            t.register,
            t.artefact_type,
            bytes,
        );
        assert(now.artefacts[now.artefacts.len() - 1].hash == address(
            task_subject(reg.task_id),
            bytes,
        ));
    }
}

/// What the record says of the connections of a run can be read off it.
pub proof fn connections_are_told_in_full(task_id: Seq<char>, launch: HarnessLaunchView, run: HarnessRun)
    ensures
        ({
            let told = connections_json(connections_of(task_id, launch, run));
            &&& text_field(told, "task_id"@) == Some(task_id)
            &&& number_field(told, "step_index"@) == Some(launch.step_index)
            &&& text_field(told, "lease_id"@) == Some(launch.lease_id)
            &&& text_field(told, "harness"@) == Some(launch.name)
            &&& field(told, "connections"@) == Some(texts_json(all(run.connections@)))
            &&& number_field(told, "samples"@) == Some(run.samples as nat)
            &&& number_field(told, "sample_every_ms"@) == Some(500nat)
            &&& bool_field(told, "governed"@) == Some(run.governed)
            &&& text_field(told, "exit"@) == Some(exit_label(run.exit_reason))
            &&& number_field(told, "duration_ms"@) == Some(run.duration_ms as nat)
        }),
{
    let ms = connections_json(connections_of(task_id, launch, run))->Object_0;
    reveal_strlit("task_id");
    reveal_strlit("step_index");
    reveal_strlit("lease_id");
    reveal_strlit("harness");
    reveal_strlit("connections");
    reveal_strlit("samples");
    reveal_strlit("sample_every_ms");
    reveal_strlit("governed");
    reveal_strlit("exit");
    reveal_strlit("duration_ms");
    assert(member(ms, "task_id"@) == Some(ms[0].1)) by {
        member_is_found(ms, 0);
    }
    assert(member(ms, "step_index"@) == Some(ms[1].1)) by {
        assert("task_id"@.len() != "step_index"@.len());
        member_is_found(ms, 1);
    }
    assert(member(ms, "lease_id"@) == Some(ms[2].1)) by {
        assert("task_id"@.len() != "lease_id"@.len());
        assert("step_index"@.len() != "lease_id"@.len());
        member_is_found(ms, 2);
    }
    assert(member(ms, "harness"@) == Some(ms[3].1)) by {
        assert("task_id"@[0] != "harness"@[0]);
        assert("step_index"@.len() != "harness"@.len());
        assert("lease_id"@.len() != "harness"@.len());
        member_is_found(ms, 3);
    }
    assert(member(ms, "connections"@) == Some(ms[4].1)) by {
        assert("task_id"@.len() != "connections"@.len());
        assert("step_index"@.len() != "connections"@.len());
        assert("lease_id"@.len() != "connections"@.len());
        assert("harness"@.len() != "connections"@.len());
        member_is_found(ms, 4);
    }
    assert(member(ms, "samples"@) == Some(ms[5].1)) by {
        assert("task_id"@[0] != "samples"@[0]);
        assert("step_index"@.len() != "samples"@.len());
        assert("lease_id"@.len() != "samples"@.len());
        assert("harness"@[0] != "samples"@[0]);
        assert("connections"@.len() != "samples"@.len());
        member_is_found(ms, 5);
    }
    assert(member(ms, "sample_every_ms"@) == Some(ms[6].1)) by {
        assert("task_id"@.len() != "sample_every_ms"@.len());
        assert("step_index"@.len() != "sample_every_ms"@.len());
        assert("lease_id"@.len() != "sample_every_ms"@.len());
        assert("harness"@.len() != "sample_every_ms"@.len());
        assert("connections"@.len() != "sample_every_ms"@.len());
        assert("samples"@.len() != "sample_every_ms"@.len());
        member_is_found(ms, 6);
    }
    assert(member(ms, "governed"@) == Some(ms[7].1)) by {
        assert("task_id"@.len() != "governed"@.len());
        assert("step_index"@.len() != "governed"@.len());
        assert("lease_id"@[0] != "governed"@[0]);
        assert("harness"@.len() != "governed"@.len());
        assert("connections"@.len() != "governed"@.len());
        assert("samples"@.len() != "governed"@.len());
        assert("sample_every_ms"@.len() != "governed"@.len());
        member_is_found(ms, 7);
    }
    assert(member(ms, "exit"@) == Some(ms[8].1)) by {
        assert("task_id"@.len() != "exit"@.len());
        assert("step_index"@.len() != "exit"@.len());
        assert("lease_id"@.len() != "exit"@.len());
        assert("harness"@.len() != "exit"@.len());
        assert("connections"@.len() != "exit"@.len());
        assert("samples"@.len() != "exit"@.len());
        assert("sample_every_ms"@.len() != "exit"@.len());
        assert("governed"@.len() != "exit"@.len());
        member_is_found(ms, 8);
    }
    assert(member(ms, "duration_ms"@) == Some(ms[9].1)) by {
        assert("task_id"@.len() != "duration_ms"@.len());
        assert("step_index"@.len() != "duration_ms"@.len());
        assert("lease_id"@.len() != "duration_ms"@.len());
        assert("harness"@.len() != "duration_ms"@.len());
        assert("connections"@[0] != "duration_ms"@[0]);
        assert("samples"@.len() != "duration_ms"@.len());
        assert("sample_every_ms"@.len() != "duration_ms"@.len());
        assert("governed"@.len() != "duration_ms"@.len());
        assert("exit"@.len() != "duration_ms"@.len());
        member_is_found(ms, 9);
    }
}

/// What the record says of a harness step that ended can be read off it.
pub proof fn harness_step_is_told_in_full(
    task_id: Seq<char>,
    i: nat,
    done: bool,
    governed: bool,
    exit: Seq<char>,
    duration_ms: u64,
)
    ensures
        ({
            let told = harness_step_json(task_id, i, done, governed, exit, duration_ms);
            &&& text_field(told, "task_id"@) == Some(task_id)
            &&& number_field(told, "step"@) == Some(i)
            &&& text_field(told, "status"@) == Some(
                if done {
                    "done"@
                } else {
                    "failed"@
                },
            )
            &&& bool_field(told, "governed"@) == Some(governed)
            &&& text_field(told, "exit"@) == Some(exit)
            &&& number_field(told, "duration_ms"@) == Some(duration_ms as nat)
        }),
{
    let ms = harness_step_json(task_id, i, done, governed, exit, duration_ms)->Object_0;
    reveal_strlit("task_id");
    reveal_strlit("step");
    reveal_strlit("status");
    reveal_strlit("governed");
    reveal_strlit("exit");
    reveal_strlit("duration_ms");
    assert(member(ms, "task_id"@) == Some(ms[0].1)) by {
        member_is_found(ms, 0);
    }
    assert(member(ms, "step"@) == Some(ms[1].1)) by {
        assert("task_id"@.len() != "step"@.len());
        member_is_found(ms, 1);
    }
    assert(member(ms, "status"@) == Some(ms[2].1)) by {
        assert("task_id"@.len() != "status"@.len());
        assert("step"@.len() != "status"@.len());
        member_is_found(ms, 2);
    }
    assert(member(ms, "governed"@) == Some(ms[3].1)) by {
        assert("task_id"@.len() != "governed"@.len());
        assert("step"@.len() != "governed"@.len());
        assert("status"@.len() != "governed"@.len());
        member_is_found(ms, 3);
    }
    assert(member(ms, "exit"@) == Some(ms[4].1)) by {
        assert("task_id"@.len() != "exit"@.len());
        assert("step"@[0] != "exit"@[0]);
        assert("status"@.len() != "exit"@.len());
        assert("governed"@.len() != "exit"@.len());
        member_is_found(ms, 4);
    }
    assert(member(ms, "duration_ms"@) == Some(ms[5].1)) by {
        assert("task_id"@.len() != "duration_ms"@.len());
        assert("step"@.len() != "duration_ms"@.len());
        assert("status"@.len() != "duration_ms"@.len());
        assert("governed"@.len() != "duration_ms"@.len());
        assert("exit"@.len() != "duration_ms"@.len());
        member_is_found(ms, 5);
    }
}

/// How a harness step ends: done or failed as the verdict is, from now on, with what it had
/// before; its task is failed with it, done when no step is left, and running otherwise.
pub proof fn harness_step_ends_as_judged(
    t: TaskView,
    i: int,
    verdict: Result<(), Seq<char>>,
    now: u64,
    j: int,
)
    requires
        0 <= i < t.steps.len(),
        0 <= j < t.steps.len(),
    ensures
        ({
            let u = harness_ended(t, i, verdict, now);
            &&& u.steps.len() == t.steps.len()
            &&& verdict is Ok ==> u.steps[i].status is Done
            &&& verdict matches Err(why) ==> u.steps[i].status == StepStatusView::Failed(why)
                && u.status == TaskStatus::Failed
            &&& u.steps[i].ended_ms == Some(now)
            &&& u.steps[i].started_ms == t.steps[i].started_ms
            &&& u.steps[i].kind == t.steps[i].kind
            &&& j != i ==> u.steps[j] == t.steps[j]
            &&& verdict is Ok ==> (u.status == TaskStatus::Done <==> forall|x: int|
                0 <= x < t.steps.len() && x != i ==> (#[trigger] t.steps[x]).status is Done)
            &&& verdict is Ok && u.status != TaskStatus::Done ==> u.status == TaskStatus::Running
            &&& u == (TaskView { steps: u.steps, status: u.status, ..t })
        }),
{
    let u = harness_ended(t, i, verdict, now);
    if verdict is Ok {
        if forall|x: int|
            0 <= x < t.steps.len() && x != i ==> (#[trigger] t.steps[x]).status is Done {
            assert forall|x: int| 0 <= x < u.steps.len() implies (#[trigger] u.steps[x]).status is Done by {
                if x != i {
                    assert(u.steps[x] == t.steps[x]);
                }
            }
        } else {
            let x = choose|x: int|
                0 <= x < t.steps.len() && x != i && !((#[trigger] t.steps[x]).status is Done);
            assert(u.steps[x] == t.steps[x]);
        }
    }
}

/// A run that finished is judged by what was collected of it, and any other by how it ended:
/// its step is done exactly when it ended by itself without a fault and left an artefact. What
/// the record has of it is what the run was.
pub proof fn settled_run_is_judged_by_what_it_left<A>(
    k: KernelView<A>,
    ctx: CtxView,
    task_id: Seq<char>,
    launch: HarnessLaunchView,
    run: HarnessRun,
    out: Seq<OutFileView>,
)
    requires
        k.store.tasks.contains_key(task_id),
        k.store.tasks[task_id].id == task_id,
        launch.step_index < k.store.tasks[task_id].steps.len(),
    ensures
        ({
            let (after, r) = harness_settling(k, ctx, task_id, launch, run, out);
            let u = r->Ok_0;
            let i = launch.step_index as int;
            let n = k.store.ledger.len() as int;
            let watched = crate::kernel::with_event(
                k,
                "harness.connections"@,
                ctx.now_ms,
                connections_json(connections_of(task_id, launch, run)),
            );
            let left = collecting(watched, ctx, task_id, launch, out);
            let last = after.store.ledger.last();
            &&& r is Ok
            &&& u.steps[i].status is Done <==> run.exit_reason == ExitReason::Exited(0)
                && left.1 is Ok
            &&& run.exit_reason == ExitReason::Exited(0) && left.1 is Err ==> u.steps[i].status
                == StepStatusView::Failed(left.1->Err_0)
            &&& run.exit_reason != ExitReason::Exited(0) ==> u.steps[i].status
                == StepStatusView::Failed("harness run ended: "@ + exit_label(run.exit_reason))
            &&& run.exit_reason == ExitReason::Exited(0) ==> after.store.registers
                == left.0.store.registers && after.store.blobs == left.0.store.blobs
            &&& u.steps[i].ended_ms == Some(ctx.now_ms)
            &&& after.store.tasks[task_id] == u
            &&& after.store.ledger[n].kind == "harness.connections"@
            &&& after.store.ledger[n].payload == connections_json(
                connections_of(task_id, launch, run),
            )
            &&& last.kind == "task.step"@
            &&& text_field(last.payload, "task_id"@) == Some(task_id)
            &&& number_field(last.payload, "step"@) == Some(launch.step_index)
            &&& text_field(last.payload, "status"@) == Some(
                if u.steps[i].status is Done {
                    "done"@
                } else {
                    "failed"@
                },
            )
            &&& bool_field(last.payload, "governed"@) == Some(run.governed)
            &&& text_field(last.payload, "exit"@) == Some(exit_label(run.exit_reason))
            &&& number_field(last.payload, "duration_ms"@) == Some(run.duration_ms as nat)
        }),
{
    let watched = crate::kernel::with_event(
        k,
        "harness.connections"@,
        ctx.now_ms,
        connections_json(connections_of(task_id, launch, run)),
    );
    let (collected, verdict) = if run.exit_reason == ExitReason::Exited(0) {
        collecting(watched, ctx, task_id, launch, out)
    } else {
        (watched, Err("harness run ended: "@ + exit_label(run.exit_reason)))
    };
    harness_step_is_told_in_full(
        task_id,
        launch.step_index,
        verdict is Ok,
        run.governed,
        exit_label(run.exit_reason),
        run.duration_ms,
    );
    let n = k.store.ledger.len() as int;
    assert(collected.store.ledger[n] == watched.store.ledger[n]);
    harness_step_ends_as_judged(
        k.store.tasks[task_id],
        launch.step_index as int,
        verdict,
        ctx.now_ms,
        launch.step_index as int,
    );
}

/// What a run that ended is answered can be read off the answer: how the task and the step
/// stand, what the run was, the newest artefact and how many there are, and whether its
/// workspace was kept.
pub proof fn run_is_answered_in_full(
    t: TaskView,
    step_index: nat,
    reg: Option<RegisterView>,
    run: HarnessRun,
    keep: bool,
    error: Option<Seq<char>>,
)
    requires
        step_index < t.steps.len(),
    ensures
        ({
            let told = run_json(t, step_index, reg, run, keep, error);
            &&& text_field(told, "task_id"@) == Some(t.id)
            &&& text_field(told, "status"@) == Some(crate::task::status_text(t.status))
            &&& field(told, "step_status"@) == Some(
                crate::wire::step_status_json(t.steps[step_index as int].status),
            )
            &&& text_field(told, "exit"@) == Some(exit_label(run.exit_reason))
            &&& bool_field(told, "governed"@) == Some(run.governed)
            &&& field(told, "connections"@) == Some(texts_json(all(run.connections@)))
            &&& number_field(told, "samples"@) == Some(run.samples as nat)
            &&& number_field(told, "duration_ms"@) == Some(run.duration_ms as nat)
            &&& reg matches Some(r) ==> number_field(told, "artefacts"@) == Some(r.artefacts.len())
            &&& reg is Some && reg->0.artefacts.len() > 0 ==> text_field(told, "artefact_hash"@)
                == Some(reg->0.artefacts.last().hash)
            &&& reg is None || reg->0.artefacts.len() == 0 ==> field(told, "artefact_hash"@) == Some(
                JsonView::Null,
            )
            &&& run.outcome matches Some(o) ==> number_field(told, "num_turns"@) == Some(
                o.num_turns as nat,
            )
            &&& bool_field(told, "kept"@) == Some(keep)
            &&& error matches Some(why) ==> text_field(told, "error"@) == Some(why)
            &&& error is None ==> field(told, "error"@) == Some(JsonView::Null)
        }),
{
    let ms = run_json(t, step_index, reg, run, keep, error)->Object_0;
    reveal_strlit("task_id");
    reveal_strlit("status");
    reveal_strlit("step_status");
    reveal_strlit("exit");
    reveal_strlit("governed");
    reveal_strlit("connections");
    reveal_strlit("samples");
    reveal_strlit("duration_ms");
    reveal_strlit("artefact_hash");
    reveal_strlit("artefacts");
    reveal_strlit("cost_list_usd");
    reveal_strlit("num_turns");
    reveal_strlit("permission_denials");
    reveal_strlit("kept");
    reveal_strlit("error");
    assert(member(ms, "task_id"@) == Some(ms[0].1)) by {
        member_is_found(ms, 0);
    }
    assert(member(ms, "status"@) == Some(ms[1].1)) by {
        assert("task_id"@.len() != "status"@.len());
        member_is_found(ms, 1);
    }
    assert(member(ms, "step_status"@) == Some(ms[2].1)) by {
        assert("task_id"@.len() != "step_status"@.len());
        assert("status"@.len() != "step_status"@.len());
        member_is_found(ms, 2);
    }
    assert(member(ms, "exit"@) == Some(ms[3].1)) by {
        assert("task_id"@.len() != "exit"@.len());
        assert("status"@.len() != "exit"@.len());
        assert("step_status"@.len() != "exit"@.len());
        member_is_found(ms, 3);
    }
    assert(member(ms, "governed"@) == Some(ms[4].1)) by {
        assert("task_id"@.len() != "governed"@.len());
        assert("status"@.len() != "governed"@.len());
        assert("step_status"@.len() != "governed"@.len());
        assert("exit"@.len() != "governed"@.len());
        member_is_found(ms, 4);
    }
    assert(member(ms, "connections"@) == Some(ms[5].1)) by {
        assert("task_id"@.len() != "connections"@.len());
        assert("status"@.len() != "connections"@.len());
        assert("step_status"@[0] != "connections"@[0]);
        assert("exit"@.len() != "connections"@.len());
        assert("governed"@.len() != "connections"@.len());
        member_is_found(ms, 5);
    }
    assert(member(ms, "samples"@) == Some(ms[6].1)) by {
        assert("task_id"@[0] != "samples"@[0]);
        assert("status"@.len() != "samples"@.len());
        assert("step_status"@.len() != "samples"@.len());
        assert("exit"@.len() != "samples"@.len());
        assert("governed"@.len() != "samples"@.len());
        assert("connections"@.len() != "samples"@.len());
        member_is_found(ms, 6);
    }
    assert(member(ms, "duration_ms"@) == Some(ms[7].1)) by {
        assert("task_id"@.len() != "duration_ms"@.len());
        assert("status"@.len() != "duration_ms"@.len());
        assert("step_status"@[0] != "duration_ms"@[0]);
        assert("exit"@.len() != "duration_ms"@.len());
        assert("governed"@.len() != "duration_ms"@.len());
        assert("connections"@[0] != "duration_ms"@[0]);
        assert("samples"@.len() != "duration_ms"@.len());
        member_is_found(ms, 7);
    }
    assert(member(ms, "artefact_hash"@) == Some(ms[8].1)) by {
        assert("task_id"@.len() != "artefact_hash"@.len());
        assert("status"@.len() != "artefact_hash"@.len());
        assert("step_status"@.len() != "artefact_hash"@.len());
        assert("exit"@.len() != "artefact_hash"@.len());
        assert("governed"@.len() != "artefact_hash"@.len());
        assert("connections"@.len() != "artefact_hash"@.len());
        assert("samples"@.len() != "artefact_hash"@.len());
        assert("duration_ms"@.len() != "artefact_hash"@.len());
        member_is_found(ms, 8);
    }
    assert(member(ms, "artefacts"@) == Some(ms[9].1)) by {
        assert("task_id"@.len() != "artefacts"@.len());
        assert("status"@.len() != "artefacts"@.len());
        assert("step_status"@.len() != "artefacts"@.len());
        assert("exit"@.len() != "artefacts"@.len());
        assert("governed"@.len() != "artefacts"@.len());
        assert("connections"@.len() != "artefacts"@.len());
        assert("samples"@.len() != "artefacts"@.len());
        assert("duration_ms"@.len() != "artefacts"@.len());
        assert("artefact_hash"@.len() != "artefacts"@.len());
        member_is_found(ms, 9);
    }
    assert(member(ms, "cost_list_usd"@) == Some(ms[10].1)) by {
        assert("task_id"@.len() != "cost_list_usd"@.len());
        assert("status"@.len() != "cost_list_usd"@.len());
        assert("step_status"@.len() != "cost_list_usd"@.len());
        assert("exit"@.len() != "cost_list_usd"@.len());
        assert("governed"@.len() != "cost_list_usd"@.len());
        assert("connections"@.len() != "cost_list_usd"@.len());
        assert("samples"@.len() != "cost_list_usd"@.len());
        assert("duration_ms"@.len() != "cost_list_usd"@.len());
        assert("artefact_hash"@[0] != "cost_list_usd"@[0]);
        assert("artefacts"@.len() != "cost_list_usd"@.len());
        member_is_found(ms, 10);
    }
    assert(member(ms, "num_turns"@) == Some(ms[11].1)) by {
        assert("task_id"@.len() != "num_turns"@.len());
        assert("status"@.len() != "num_turns"@.len());
        assert("step_status"@.len() != "num_turns"@.len());
        assert("exit"@.len() != "num_turns"@.len());
        assert("governed"@.len() != "num_turns"@.len());
        assert("connections"@.len() != "num_turns"@.len());
        assert("samples"@.len() != "num_turns"@.len());
        assert("duration_ms"@.len() != "num_turns"@.len());
        assert("artefact_hash"@.len() != "num_turns"@.len());
        assert("artefacts"@[0] != "num_turns"@[0]);
        assert("cost_list_usd"@.len() != "num_turns"@.len());
        member_is_found(ms, 11);
    }
    assert(member(ms, "permission_denials"@) == Some(ms[12].1)) by {
        assert("task_id"@.len() != "permission_denials"@.len());
        assert("status"@.len() != "permission_denials"@.len());
        assert("step_status"@.len() != "permission_denials"@.len());
        assert("exit"@.len() != "permission_denials"@.len());
        assert("governed"@.len() != "permission_denials"@.len());
        assert("connections"@.len() != "permission_denials"@.len());
        assert("samples"@.len() != "permission_denials"@.len());
        assert("duration_ms"@.len() != "permission_denials"@.len());
        assert("artefact_hash"@.len() != "permission_denials"@.len());
        assert("artefacts"@.len() != "permission_denials"@.len());
        assert("cost_list_usd"@.len() != "permission_denials"@.len());
        assert("num_turns"@.len() != "permission_denials"@.len());
        member_is_found(ms, 12);
    }
    assert(member(ms, "kept"@) == Some(ms[13].1)) by {
        assert("task_id"@.len() != "kept"@.len());
        assert("status"@.len() != "kept"@.len());
        assert("step_status"@.len() != "kept"@.len());
        assert("exit"@[0] != "kept"@[0]);
        assert("governed"@.len() != "kept"@.len());
        assert("connections"@.len() != "kept"@.len());
        assert("samples"@.len() != "kept"@.len());
        assert("duration_ms"@.len() != "kept"@.len());
        assert("artefact_hash"@.len() != "kept"@.len());
        assert("artefacts"@.len() != "kept"@.len());
        assert("cost_list_usd"@.len() != "kept"@.len());
        assert("num_turns"@.len() != "kept"@.len());
        assert("permission_denials"@.len() != "kept"@.len());
        member_is_found(ms, 13);
    }
    assert(member(ms, "error"@) == Some(ms[14].1)) by {
        assert("task_id"@.len() != "error"@.len());
        assert("status"@.len() != "error"@.len());
        assert("step_status"@.len() != "error"@.len());
        assert("exit"@.len() != "error"@.len());
        assert("governed"@.len() != "error"@.len());
        assert("connections"@.len() != "error"@.len());
        assert("samples"@.len() != "error"@.len());
        assert("duration_ms"@.len() != "error"@.len());
        assert("artefact_hash"@.len() != "error"@.len());
        assert("artefacts"@.len() != "error"@.len());
        assert("cost_list_usd"@.len() != "error"@.len());
        assert("num_turns"@.len() != "error"@.len());
        assert("permission_denials"@.len() != "error"@.len());
        assert("kept"@.len() != "error"@.len());
        member_is_found(ms, 14);
    }
}

/// The words for why a run ended tell the reasons apart.
pub proof fn exit_is_told_by_its_word(r: ExitReason)
    ensures
        r matches ExitReason::Exited(c) ==> exit_label(r) == "code "@ + crate::text::signed_decimal(
            c as int,
        ),
        r is Timeout ==> exit_label(r) == "timeout"@,
        r is KilledByGovernor ==> exit_label(r) == "killed by governor"@,
        r is Signal ==> exit_label(r) == "signal"@,
        r is NotContained ==> exit_label(r) == "not contained"@,
        r is NotStarted ==> exit_label(r) == "not started"@,
{
}

/// A process that has ended is left alone; one that runs is killed when a stop comes, or when
/// its time is up, and is looked at again otherwise. A stop comes first.
pub proof fn process_is_killed_when_it_must_be(
    ended: Option<Option<i32>>,
    stop: bool,
    elapsed_ms: u64,
    timeout_ms: u64,
)
    ensures
        move_of(ended, stop, elapsed_ms, timeout_ms) is Ended <==> ended is Some,
        ended matches Some(Some(c)) ==> move_of(ended, stop, elapsed_ms, timeout_ms) == Move::Ended(
            ExitReason::Exited(c),
        ),
        ended == Some(None::<i32>) ==> move_of(ended, stop, elapsed_ms, timeout_ms) == Move::Ended(
            ExitReason::Signal,
        ),
        ended is None && stop ==> move_of(ended, stop, elapsed_ms, timeout_ms) == Move::Kill(
            ExitReason::KilledByGovernor,
        ),
        ended is None && !stop && elapsed_ms >= timeout_ms ==> move_of(
            ended,
            stop,
            elapsed_ms,
            timeout_ms,
        ) == Move::Kill(ExitReason::Timeout),
        ended is None && !stop && elapsed_ms < timeout_ms ==> move_of(
            ended,
            stop,
            elapsed_ms,
            timeout_ms,
        ) == Move::Sample,
{
}

/// Whether a flag stands on a command line with this value right after it.
pub open spec fn passes(line: Seq<Seq<char>>, flag: Seq<char>, value: Seq<char>) -> bool {
    exists|i: int| 0 <= i < line.len() - 1 && #[trigger] line[i] == flag && line[i + 1] == value
}

/// The command line of a launch is the program, and says what to do, where its one server's
/// configuration is, which tools it may use and that it answers in JSON; the model and what is
/// added to the system prompt stand on it exactly when they are given.
pub proof fn command_line_says_what_was_configured(
    binary: Seq<char>,
    prompt: Seq<char>,
    config_dir: Seq<char>,
    model: Option<Seq<char>>,
    suffix: Option<Seq<char>>,
    windows: bool,
)
    ensures
        ({
            let line = launch_args(binary, prompt, config_dir, model, suffix, windows);
            &&& line[0] == binary
            &&& passes(line, "-p"@, prompt)
            &&& passes(line, "--mcp-config"@, joined(config_dir, "mcp.json"@, windows))
            &&& passes(line, "--allowedTools"@, "mcp__vk__*,Read,Write,Edit,Glob,Grep"@)
            &&& passes(line, "--permission-mode"@, "acceptEdits"@)
            &&& passes(line, "--output-format"@, "json"@)
            &&& line.contains("--strict-mcp-config"@)
            &&& model matches Some(m) ==> passes(line, "--model"@, m)
            &&& suffix matches Some(s) ==> passes(line, "--append-system-prompt"@, s)
            &&& line.len() == 12 + (if model is Some {
                2int
            } else {
                0
            }) + (if suffix is Some {
                2int
            } else {
                0
            })
        }),
{
    let line = launch_args(binary, prompt, config_dir, model, suffix, windows);
    assert(line[1] == "-p"@ && line[2] == prompt);
    assert(line[3] == "--mcp-config"@);
    assert(line[5] == "--allowedTools"@);
    assert(line[7] == "--permission-mode"@);
    assert(line[9] == "--output-format"@);
    assert(line[11] == "--strict-mcp-config"@);
    if model is Some {
        assert(line[12] == "--model"@);
        assert(line[13] == model->0);
        if suffix is Some {
            assert(line[14] == "--append-system-prompt"@);
            assert(line[15] == suffix->0);
        }
    } else if suffix is Some {
        assert(line[12] == "--append-system-prompt"@);
        assert(line[13] == suffix->0);
    }
}

/// A file is the declared output when it is called what the task makes, alone or with an ending
/// behind a dot; a name that goes on otherwise is not.
pub proof fn declared_output_is_known_by_its_name(
    artefact_type: Seq<char>,
    ending: Seq<char>,
    more: Seq<char>,
)
    requires
        more.len() > 0,
        more[0] != '.',
    ensures
        crate::harness::is_declared(artefact_type, artefact_type),
        crate::harness::is_declared(artefact_type + "."@ + ending, artefact_type),
        !crate::harness::is_declared(artefact_type + more, artefact_type),
{
    reveal_strlit(".");
    let dotted = artefact_type + "."@;
    let long = artefact_type + "."@ + ending;
    assert(long.subrange(0, dotted.len() as int) =~= dotted);
    let other = artefact_type + more;
    assert(other.len() != artefact_type.len());
    if crate::text::begins(other, dotted) {
        let n = artefact_type.len() as int;
        assert(other.subrange(0, dotted.len() as int)[n] == other[n]);
        assert(dotted[n] == '.');
        assert(other[n] == more[0]);
    }
}

/// A run is launched whenever its task can name a directory, may be seen, is not over and stands
/// at a harness step of that name which no run is live for, the node is not stopped, and what the
/// harness is cleared for has the register; and only then, as far as its lease is granted.
pub proof fn run_is_launched_when_it_may_be<A>(
    k: KernelView<A>,
    ctx: CtxView,
    task_id: Seq<char>,
    name: Seq<char>,
    timeout_ms: u64,
    run: Seq<char>,
    token: Seq<char>,
)
    requires
        seen(k.store, ctx, task_id) is Some,
        task_id.len() > 0,
        forall|i: int|
            0 <= i < task_id.len() ==> {
                let c = #[trigger] task_id[i];
                'a' <= c <= 'z' || 'A' <= c <= 'Z' || '0' <= c <= '9' || c == '-' || c == '_'
            },
        !crate::stops::is_stopped(k, "node"@),
    ensures
        ({
            let t = k.store.tasks[task_id];
            let n = crate::task::next_step(t.steps) as int;
            let reg = k.store.registers[t.register];
            let r = launching(k, ctx, task_id, name, timeout_ms, run, token).1;
            let stands = 0 <= n < t.steps.len() && t.steps[n].kind is Harness
                && t.steps[n].kind->name == name && !(t.steps[n].status is Running) && forall|
                key: Seq<char>,
            | #[trigger]
                k.harness_tokens.contains_key(key) ==> k.harness_tokens[key].task_id != task_id;
            let over = t.status == TaskStatus::Done || t.status == TaskStatus::Failed;
            let leased = forall|id: Seq<char>| #[trigger]
                k.locks.contains_key(id) ==> k.locks[id].resource != "harness:"@ + task_id;
            let fence = k.home.contains_key("harness:"@ + task_id) && k.home["harness:"@ + task_id]
                == u64::MAX;
            let cleared = reg.label.data_class == crate::labels::DataClass::Own && (
            reg.label.scope is Public || reg.label.scope is Vertical || reg.label.scope is Business);
            &&& r is Ok ==> stands && !over && cleared
            &&& stands && !over && cleared && leased && !fence ==> r is Ok
        }),
{
    crate::task::next_step_is_first(k.store.tasks[task_id].steps);
    crate::authority_laws::lease_is_refused_while_held(
        k,
        crate::harness::run_ctx(k, ctx, run),
        "harness:"@ + task_id,
        crate::leases::capped_sum(timeout_ms, crate::harness::HARNESS_SETTLE_SLACK_MS),
    );
    assert(crate::harness::plain_name(task_id));
    let t = k.store.tasks[task_id];
    crate::workspace_laws::harness_sees_the_business_alone(k.store.registers[t.register].label);
    assert(crate::harness::is_live(k, task_id) <==> exists|key: Seq<char>| #[trigger]
        k.harness_tokens.contains_key(key) && k.harness_tokens[key].task_id == task_id);
}

} // verus!
