//! What a node finds of the work its last process left half done.
use crate::json::{text, Fields, Json, JsonView};
use crate::kernel::{with_event, KernelView, RealKernel};
use crate::model::{all, Duplicate};
use crate::scheduler::INTERRUPTED;
use crate::store::StoreView;
use crate::table::{ascending, same_keys_same_order};
use crate::task::{Step, StepStatus, StepStatusView, StepView, Task, TaskStatus, TaskView};
use crate::tasks::task_saved;
use vstd::prelude::*;

verus! {

/// A step that was running, as it is once its process is known to be gone.
pub open spec fn given_up(s: StepView, now: u64) -> StepView {
    if s.status is Running {
        StepView { status: StepStatusView::Failed(INTERRUPTED@), ended_ms: Some(now), ..s }
    } else {
        s
    }
}

/// Whether a step of a task is still running.
pub open spec fn interrupted(t: TaskView) -> bool {
    exists|i: int| 0 <= i < t.steps.len() && (#[trigger] t.steps[i]).status is Running
}

/// What the record says of a step that was given up.
pub open spec fn given_up_json(task_id: Seq<char>, i: nat) -> JsonView {
    JsonView::Object(
        seq![
            ("task_id"@, JsonView::Text(task_id)),
            ("step"@, JsonView::Unsigned(i)),
            ("status"@, JsonView::Text("failed"@)),
            ("reason"@, JsonView::Text(INTERRUPTED@)),
        ],
    )
}

/// The kernel with an event for each of the first `n` steps that was running.
pub open spec fn noted<A>(k: KernelView<A>, t: TaskView, n: nat, now: u64) -> KernelView<A>
    decreases n,
{
    if n == 0 {
        k
    } else {
        let before = noted(k, t, (n - 1) as nat, now);
        if t.steps[n - 1].status is Running {
            with_event(before, "task.step"@, now, given_up_json(t.id, (n - 1) as nat))
        } else {
            before
        }
    }
}

/// The task with every running step given up.
pub open spec fn ended(t: TaskView, now: u64) -> TaskView {
    TaskView {
        steps: t.steps.map_values(|s: StepView| given_up(s, now)),
        status: TaskStatus::Failed,
        ..t
    }
}

/// Recovering one task: a step that was running fails, and so does its task. Nothing
/// is run again.
pub open spec fn task_recovered<A>(k: KernelView<A>, id: Seq<char>, now: u64) -> KernelView<A> {
    let t = k.store.tasks[id];
    if k.store.tasks.contains_key(id) && interrupted(t) {
        task_saved(noted(k, t, t.steps.len(), now), ended(t, now))
    } else {
        k
    }
}

/// Recovering these tasks, one after another.
pub open spec fn recovered<A>(k: KernelView<A>, ids: Seq<Seq<char>>, now: u64) -> KernelView<A>
    decreases ids.len(),
{
    if ids.len() == 0 {
        k
    } else {
        task_recovered(recovered(k, ids.drop_last(), now), ids.last(), now)
    }
}

/// Those of these tasks that have a running step.
pub open spec fn interrupted_ids(s: StoreView, ids: Seq<Seq<char>>) -> Seq<Seq<char>>
    decreases ids.len(),
{
    if ids.len() == 0 {
        Seq::empty()
    } else {
        let before = interrupted_ids(s, ids.drop_last());
        if s.tasks.contains_key(ids.last()) && interrupted(s.tasks[ids.last()]) {
            before.push(ids.last())
        } else {
            before
        }
    }
}

/// Whether these are the ids of all tasks, in order.
pub open spec fn all_task_ids(s: StoreView, ids: Seq<Seq<char>>) -> bool {
    &&& ascending(ids)
    &&& forall|id: Seq<char>| #[trigger] ids.contains(id) <==> s.tasks.contains_key(id)
}

/// Noting what was given up touches nothing but the record.
proof fn noting_keeps_the_rest<A>(k: KernelView<A>, t: TaskView, n: nat, now: u64)
    ensures
        noted(k, t, n, now) == (KernelView {
            store: StoreView { ledger: noted(k, t, n, now).store.ledger, ..k.store },
            ..k
        }),
    decreases n,
{
    if n > 0 {
        noting_keeps_the_rest(k, t, (n - 1) as nat, now);
    }
}

/// Recovering tasks keeps every task row under its id, and leaves those that were
/// not recovered as they were.
proof fn recovery_touches_only_these<A>(
    k: KernelView<A>,
    ids: Seq<Seq<char>>,
    now: u64,
    id: Seq<char>,
)
    requires
        forall|x: Seq<char>| #[trigger]
            k.store.tasks.contains_key(x) ==> k.store.tasks[x].id == x,
    ensures
        recovered(k, ids, now).store.tasks.dom() =~= k.store.tasks.dom(),
        forall|x: Seq<char>| #[trigger]
            k.store.tasks.contains_key(x) ==> recovered(k, ids, now).store.tasks[x].id == x,
        !ids.contains(id) && k.store.tasks.contains_key(id) ==> recovered(
            k,
            ids,
            now,
        ).store.tasks[id] == k.store.tasks[id],
        recovered(k, ids, now) == (KernelView {
            store: StoreView {
                ledger: recovered(k, ids, now).store.ledger,
                tasks: recovered(k, ids, now).store.tasks,
                ..k.store
            },
            ..k
        }),
    decreases ids.len(),
{
    if ids.len() > 0 {
        let last = ids.last();
        let before = recovered(k, ids.drop_last(), now);
        recovery_touches_only_these(k, ids.drop_last(), now, id);
        let t = before.store.tasks[last];
        noting_keeps_the_rest(before, t, t.steps.len(), now);
        assert(ids.drop_last().contains(id) ==> ids.contains(id)) by {
            if ids.drop_last().contains(id) {
                let i = ids.drop_last().index_of(id);
                assert(ids[i] == id);
            }
        }
        assert(ids.contains(last)) by {
            assert(ids[ids.len() - 1] == last);
        }
    }
}

fn fail_running(s: &Step, now: u64) -> (r: Step)
    ensures
        r@ == given_up(s@, now),
{
    let mut r = s.dup();
    if s.status.is_running() {
        r.status = StepStatus::Failed(INTERRUPTED.to_owned());
        r.ended_ms = Some(now);
    }
    r
}

fn given_up_to_json(task_id: &str, i: usize) -> (r: Json)
    ensures
        r@ == given_up_json(task_id@, i as nat),
{
    let mut f = Fields::new();
    f.put_text("task_id", task_id);
    f.put("step", Json::Unsigned(i as u64));
    f.put_text("status", "failed");
    f.put_text("reason", INTERRUPTED);
    assert(f@ =~= given_up_json(task_id@, i as nat)->Object_0);
    f.object()
}

fn has_running(t: &Task) -> (r: bool)
    ensures
        r == interrupted(t@),
{
    let mut i: usize = 0;
    while i < t.steps.len()
        invariant
            i <= t.steps@.len(),
            forall|j: int| 0 <= j < i ==> !((#[trigger] t@.steps[j]).status is Running),
        decreases t.steps@.len() - i,
    {
        assert(t@.steps[i as int] == t.steps@[i as int]@);
        if t.steps[i].status.is_running() {
            return true;
        }
        i += 1;
    }
    false
}

impl<A> RealKernel<A> {
    fn recover_task(&mut self, id: &str, now: u64) -> (r: bool)
        requires
            old(self).wf(),
        ensures
            final(self).wf(),
            final(self)@ == task_recovered(old(self)@, id@, now),
            r == (old(self)@.store.tasks.contains_key(id@) && interrupted(
                old(self)@.store.tasks[id@],
            )),
    {
        let t = match self.store.tasks.get(id) {
            Some(t) => t.dup(),
            None => return false,
        };
        if !has_running(&t) {
            return false;
        }
        let mut steps: Vec<Step> = Vec::new();
        let mut i: usize = 0;
        while i < t.steps.len()
            invariant
                self.wf(),
                i <= t.steps@.len(),
                self@ == noted(old(self)@, t@, i as nat, now),
                steps@.len() == i,
                forall|j: int|
                    0 <= j < i ==> (#[trigger] steps@[j])@ == given_up(t.steps@[j]@, now),
            decreases t.steps@.len() - i,
        {
            assert(t@.steps[i as int] == t.steps@[i as int]@);
            if t.steps[i].status.is_running() {
                self.record_event("task.step", now, given_up_to_json(t.id.as_str(), i));
            }
            steps.push(fail_running(&t.steps[i], now));
            i += 1;
        }
        let over = Task {
            id: t.id.dup(),
            register: t.register.dup(),
            goal: t.goal.dup(),
            artefact_type: t.artefact_type.dup(),
            steps,
            status: TaskStatus::Failed,
            created_ms: t.created_ms,
        };
        assert(over@.steps =~= ended(t@, now).steps);
        self.save_task(&over);
        true
    }

    /// End every step that was left running, and say so on the record. How far such
    /// a step got cannot be known, so it is never run again by itself.
    pub fn recover_interrupted_steps(&mut self, now: u64) -> (r: Vec<String>)
        requires
            old(self).wf(),
        ensures
            final(self).wf(),
            exists|ids: Seq<Seq<char>>| #[trigger]
                all_task_ids(old(self)@.store, ids) && final(self)@ == recovered(
                    old(self)@,
                    ids,
                    now,
                ) && all(r@) == interrupted_ids(old(self)@.store, ids),
    {
        let ids = self.store.tasks.key_list();
        proof {
            self.store.tasks.keys_are_domain();
        }
        let ghost views = all(ids@);
        let mut found: Vec<String> = Vec::new();
        let mut i: usize = 0;
        assert(views.take(0) =~= Seq::<Seq<char>>::empty());
        assert(all(found@) =~= Seq::<Seq<char>>::empty());
        while i < ids.len()
            invariant
                self.wf(),
                i <= ids@.len(),
                views == all(ids@),
                old(self).wf(),
                all_task_ids(old(self)@.store, views),
                self@ == recovered(old(self)@, views.take(i as int), now),
                all(found@) == interrupted_ids(old(self)@.store, views.take(i as int)),
            decreases ids@.len() - i,
        {
            let ghost id = views[i as int];
            assert(views.take(i + 1).drop_last() =~= views.take(i as int));
            assert(views.take(i + 1).last() == id);
            proof {
                recovery_touches_only_these(old(self)@, views.take(i as int), now, id);
                assert(!views.take(i as int).contains(id)) by {
                    if views.take(i as int).contains(id) {
                        let j = views.take(i as int).index_of(id);
                        assert(views.take(i as int)[j] == id);
                        crate::text::before_irreflexive(id);
                        assert(crate::text::before(views[j], views[i as int]));
                    }
                }
                assert(views.contains(id));
            }
            if self.recover_task(ids[i].as_str(), now) {
                let ghost before = all(found@);
                found.push(ids[i].dup());
                assert(all(found@) =~= before.push(id));
            }
            i += 1;
        }
        assert(views.take(i as int) =~= views);
        found
    }
}

/// A recovered task has no running step.
proof fn ended_is_not_interrupted(t: TaskView, now: u64)
    ensures
        !interrupted(ended(t, now)),
{
}

proof fn recovered_tasks_are_quiet<A>(
    k: KernelView<A>,
    ids: Seq<Seq<char>>,
    now: u64,
    id: Seq<char>,
)
    requires
        forall|x: Seq<char>| #[trigger]
            k.store.tasks.contains_key(x) ==> k.store.tasks[x].id == x,
        ids.contains(id),
        k.store.tasks.contains_key(id),
    ensures
        !interrupted(recovered(k, ids, now).store.tasks[id]),
    decreases ids.len(),
{
    let last = ids.last();
    let before = recovered(k, ids.drop_last(), now);
    recovery_touches_only_these(k, ids.drop_last(), now, id);
    let t = before.store.tasks[last];
    noting_keeps_the_rest(before, t, t.steps.len(), now);
    ended_is_not_interrupted(t, now);
    if ids.drop_last().contains(id) {
        recovered_tasks_are_quiet(k, ids.drop_last(), now, id);
    } else {
        let i = ids.index_of(id);
        if i < ids.len() - 1 {
            assert(ids.drop_last()[i] == id);
        }
        assert(id == last);
    }
}

proof fn quiet_tasks_stay<A>(k: KernelView<A>, ids: Seq<Seq<char>>, now: u64)
    requires
        forall|x: Seq<char>| #[trigger]
            k.store.tasks.contains_key(x) ==> !interrupted(k.store.tasks[x]),
    ensures
        recovered(k, ids, now) == k,
        interrupted_ids(k.store, ids) == Seq::<Seq<char>>::empty(),
    decreases ids.len(),
{
    if ids.len() > 0 {
        quiet_tasks_stay(k, ids.drop_last(), now);
    }
}

proof fn noting_only_adds_events<A>(k: KernelView<A>, t: TaskView, n: nat, now: u64)
    ensures
        k.store.ledger.len() <= noted(k, t, n, now).store.ledger.len(),
        noted(k, t, n, now).store.ledger.take(k.store.ledger.len() as int) =~= k.store.ledger,
    decreases n,
{
    if n > 0 {
        noting_only_adds_events(k, t, (n - 1) as nat, now);
        let before = noted(k, t, (n - 1) as nat, now).store.ledger;
        assert forall|i: int| 0 <= i < k.store.ledger.len() implies #[trigger] noted(
            k,
            t,
            n,
            now,
        ).store.ledger[i] == k.store.ledger[i] by {
            assert(before.take(k.store.ledger.len() as int)[i] == before[i]);
        }
    }
}

/// Recovery only adds to the record.
pub proof fn recovery_only_adds_events<A>(k: KernelView<A>, ids: Seq<Seq<char>>, now: u64)
    ensures
        k.store.ledger.len() <= recovered(k, ids, now).store.ledger.len(),
        forall|i: int|
            0 <= i < k.store.ledger.len() ==> #[trigger] recovered(k, ids, now).store.ledger[i]
                == k.store.ledger[i],
    decreases ids.len(),
{
    if ids.len() > 0 {
        recovery_only_adds_events(k, ids.drop_last(), now);
        let before = recovered(k, ids.drop_last(), now);
        let t = before.store.tasks[ids.last()];
        noting_only_adds_events(before, t, t.steps.len(), now);
        let noted_ledger = noted(before, t, t.steps.len(), now).store.ledger;
        assert forall|i: int| 0 <= i < k.store.ledger.len() implies #[trigger] recovered(
            k,
            ids,
            now,
        ).store.ledger[i] == k.store.ledger[i] by {
            assert(noted_ledger.take(before.store.ledger.len() as int)[i] == noted_ledger[i]);
        }
    }
}

/// Recovering twice is recovering once: the second time there is nothing to end, and
/// nothing is put on the record.
pub proof fn recovery_is_done_once<A>(
    k: KernelView<A>,
    ids: Seq<Seq<char>>,
    again: Seq<Seq<char>>,
    now: u64,
    later: u64,
)
    requires
        crate::kernel::filed(k.store),
        all_task_ids(k.store, ids),
        all_task_ids(recovered(k, ids, now).store, again),
    ensures
        recovered(recovered(k, ids, now), again, later) == recovered(k, ids, now),
        interrupted_ids(recovered(k, ids, now).store, again).len() == 0,
{
    let once = recovered(k, ids, now);
    recovery_touches_only_these(k, ids, now, Seq::empty());
    assert forall|x: Seq<char>| #[trigger] once.store.tasks.contains_key(x) implies !interrupted(
        once.store.tasks[x],
    ) by {
        assert(k.store.tasks.dom().contains(x));
        assert(k.store.tasks.contains_key(x));
        assert(ids.contains(x));
        recovered_tasks_are_quiet(k, ids, now, x);
    }
    quiet_tasks_stay(once, again, later);
}

/// What is recovered does not depend on how the ids were listed: there is one list of
/// them.
pub proof fn task_ids_are_listed_one_way(s: StoreView, a: Seq<Seq<char>>, b: Seq<Seq<char>>)
    requires
        all_task_ids(s, a),
        all_task_ids(s, b),
    ensures
        a == b,
{
    assert forall|x: Seq<char>| a.contains(x) <==> b.contains(x) by {}
    same_keys_same_order(a, b);
}

/// What becomes of a task when its node comes back: a step that was running has failed, and
/// says that it was interrupted and when that was found; every other step is as it was. The
/// task has failed where a step has, and otherwise stays as it was. Nothing but tasks and the
/// record is touched.
pub proof fn interrupted_steps_fail_and_no_others<A>(
    k: KernelView<A>,
    ids: Seq<Seq<char>>,
    now: u64,
    id: Seq<char>,
    j: int,
)
    requires
        crate::kernel::filed(k.store),
        k.store.tasks.contains_key(id),
        ids.contains(id),
        0 <= j < k.store.tasks[id].steps.len(),
    ensures
        ({
            let after = recovered(k, ids, now);
            let t = k.store.tasks[id];
            let u = after.store.tasks[id];
            &&& after.store.tasks.contains_key(id)
            &&& u.steps.len() == t.steps.len()
            &&& t.steps[j].status is Running ==> {
                &&& u.steps[j].status == StepStatusView::Failed("interrupted by restart"@)
                &&& u.steps[j].ended_ms == Some(now)
                &&& u.steps[j].started_ms == t.steps[j].started_ms
                &&& u.steps[j].kind == t.steps[j].kind
                &&& u.steps[j].tokens == t.steps[j].tokens
                &&& u.status == TaskStatus::Failed
            }
            &&& !(t.steps[j].status is Running) ==> u.steps[j] == t.steps[j]
            &&& u.status == t.status || u.status == TaskStatus::Failed && exists|i: int|
                0 <= i < t.steps.len() && (#[trigger] t.steps[i]).status is Running
            &&& u == (TaskView { steps: u.steps, status: u.status, ..t })
            &&& after == (KernelView {
                store: StoreView {
                    ledger: after.store.ledger,
                    tasks: after.store.tasks,
                    ..k.store
                },
                ..k
            })
        }),
{
    recovered_row(k, ids, now, id);
    recovery_touches_only_these(k, ids, now, id);
    let t = k.store.tasks[id];
    if t.steps[j].status is Running {
        assert(interrupted(t));
    }
}

proof fn recovered_row<A>(k: KernelView<A>, ids: Seq<Seq<char>>, now: u64, id: Seq<char>)
    requires
        crate::kernel::filed(k.store),
        k.store.tasks.contains_key(id),
        ids.contains(id),
    ensures
        recovered(k, ids, now).store.tasks[id] == (if interrupted(k.store.tasks[id]) {
            ended(k.store.tasks[id], now)
        } else {
            k.store.tasks[id]
        }),
    decreases ids.len(),
{
    let front = ids.drop_last();
    let last = ids.last();
    let before = recovered(k, front, now);
    recovery_touches_only_these(k, front, now, id);
    let t = before.store.tasks[last];
    noting_keeps_the_rest(before, t, t.steps.len(), now);
    ended_is_not_interrupted(k.store.tasks[id], now);
    assert(before.store.tasks.contains_key(id));
    if before.store.tasks.contains_key(last) {
        assert(k.store.tasks.contains_key(last));
        assert(t.id == last);
    }
    if front.contains(id) {
        recovered_row(k, front, now, id);
    } else {
        let i = ids.index_of(id);
        assert(ids[i] == id);
        if i < front.len() {
            assert(front[i] == id);
        }
        assert(last == id);
    }
}

/// What the record says of a step that was given up can be read off it.
pub proof fn given_up_step_is_told_in_full(task_id: Seq<char>, i: nat)
    ensures
        crate::json::text_field(given_up_json(task_id, i), "task_id"@) == Some(task_id),
        crate::json::number_field(given_up_json(task_id, i), "step"@) == Some(i),
        crate::json::text_field(given_up_json(task_id, i), "status"@) == Some("failed"@),
        crate::json::text_field(given_up_json(task_id, i), "reason"@) == Some(
            "interrupted by restart"@,
        ),
{
    let ms = given_up_json(task_id, i)->Object_0;
    reveal_strlit("task_id");
    reveal_strlit("step");
    reveal_strlit("status");
    reveal_strlit("reason");
    assert(crate::json::member(ms, "task_id"@) == Some(ms[0].1)) by {
        crate::reading_laws::member_is_found(ms, 0);
    }
    assert(crate::json::member(ms, "step"@) == Some(ms[1].1)) by {
        assert("task_id"@.len() != "step"@.len());
        crate::reading_laws::member_is_found(ms, 1);
    }
    assert(crate::json::member(ms, "status"@) == Some(ms[2].1)) by {
        assert("task_id"@.len() != "status"@.len());
        assert("step"@.len() != "status"@.len());
        crate::reading_laws::member_is_found(ms, 2);
    }
    assert(crate::json::member(ms, "reason"@) == Some(ms[3].1)) by {
        assert("task_id"@.len() != "reason"@.len());
        assert("step"@.len() != "reason"@.len());
        assert("status"@[0] != "reason"@[0]);
        crate::reading_laws::member_is_found(ms, 3);
    }
}

/// Every step that was running when its task is given up is on the record, by its task and its
/// number, from now on; the events before stay.
pub proof fn interrupted_steps_are_on_the_record<A>(
    k: KernelView<A>,
    t: TaskView,
    n: nat,
    now: u64,
    j: int,
)
    requires
        0 <= j < n <= t.steps.len(),
        t.steps[j].status is Running,
    ensures
        exists|e: int|
            k.store.ledger.len() <= e < noted(k, t, n, now).store.ledger.len() && (
            #[trigger] noted(k, t, n, now).store.ledger[e]).kind == "task.step"@ && noted(
                k,
                t,
                n,
                now,
            ).store.ledger[e].wall_ms == now && noted(k, t, n, now).store.ledger[e].payload
                == given_up_json(t.id, j as nat),
    decreases n,
{
    let ledger = noted(k, t, n, now).store.ledger;
    let before = noted(k, t, (n - 1) as nat, now).store.ledger;
    noting_only_adds_events(k, t, (n - 1) as nat, now);
    if j == n - 1 {
        assert(ledger[before.len() as int].payload == given_up_json(t.id, j as nat));
    } else {
        interrupted_steps_are_on_the_record(k, t, (n - 1) as nat, now, j);
        let e = choose|e: int|
            k.store.ledger.len() <= e < before.len() && (#[trigger] before[e]).kind == "task.step"@
                && before[e].wall_ms == now && before[e].payload == given_up_json(t.id, j as nat);
        assert(ledger[e] == before[e]);
    }
}

} // verus!
