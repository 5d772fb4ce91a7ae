//! Tasks as the kernel keeps them, and what a caller may see of them.
use crate::error::{KernelError, KernelErrorView};
use crate::hash::{hash_text, text_hash};
use crate::json::{canonical_hash, hash_canonical};
use crate::kernel::{outcome, register_read, submitted, KernelView, RealKernel};
use crate::labels::{flows, Label};
use crate::model::{all, Duplicate};
use crate::principal::{Ctx, CtxView};
use crate::register::RegisterView;
use crate::store::StoreView;
use crate::table::ascending;
use crate::task::{
    leaves_decision, next_step, status_name, status_text, Step, StepKind, StepKindView, StepStatus,
    StepStatusView, StepView, Task, TaskStatus, TaskView,
};
use crate::text::{before, cat4, chars_of};
use crate::wire::{register_json, register_to_json};
use vstd::prelude::*;
use vstd::utf8::encode_utf8;

verus! {

/// A letter or digit of ASCII.
pub open spec fn alphanumeric(c: char) -> bool {
    '0' <= c <= '9' || 'a' <= c <= 'z' || 'A' <= c <= 'Z'
}

/// A letter or digit of ASCII.
pub fn is_alphanumeric(c: char) -> (r: bool)
    ensures
        r == alphanumeric(c),
{
    ('0' <= c && c <= '9') || ('a' <= c && c <= 'z') || ('A' <= c && c <= 'Z')
}

/// A character an artefact kind may have.
pub open spec fn kind_char(c: char) -> bool {
    alphanumeric(c) || c == '.' || c == '_' || c == '-'
}

/// Whether a kind is a short plain token: it becomes part of a file name, so it
/// can hold no separator and cannot begin with a dot.
pub open spec fn plain_kind(kind: Seq<char>) -> bool {
    &&& 0 < kind.len() <= 32
    &&& kind[0] != '.'
    &&& forall|i: int| 0 <= i < kind.len() ==> kind_char(#[trigger] kind[i])
}

/// What is said of a kind that is no plain token.
pub open spec fn kind_refusal() -> KernelErrorView {
    KernelErrorView::Gate("artefact kind must be a short plain token"@)
}

/// Refuse an artefact kind that is not a short plain token.
pub fn validate_artefact_kind(kind: &str) -> (r: Result<(), KernelError>)
    ensures
        r is Ok <==> plain_kind(kind@),
        r matches Err(e) ==> e@ == kind_refusal(),
{
    let v = chars_of(kind);
    let mut ok = v.len() > 0 && v.len() <= 32 && v[0] != '.';
    let mut i: usize = 0;
    while i < v.len() && ok
        invariant
            i <= v@.len(),
            v@ == kind@,
            ok ==> 0 < v@.len() <= 32 && v@[0] != '.' && forall|j: int|
                0 <= j < i ==> kind_char(#[trigger] v@[j]),
            !ok ==> !plain_kind(kind@),
        decreases v@.len() - i, ok as int,
    {
        let c: char = v[i];
        if is_alphanumeric(c) || c == '.' || c == '_' || c == '-' {
            i += 1;
        } else {
            assert(!kind_char(kind@[i as int]));
            ok = false;
        }
    }
    if ok {
        Ok(())
    } else {
        Err(KernelError::Gate("artefact kind must be a short plain token".to_owned()))
    }
}

/// A step that has not started.
pub open spec fn pending_step(kind: StepKindView) -> StepView {
    StepView {
        kind,
        status: StepStatusView::Pending,
        started_ms: None,
        ended_ms: None,
        tokens: 0,
    }
}

/// A task that has just been created on this register.
pub open spec fn queued_task(
    reg: RegisterView,
    goal: Seq<char>,
    artefact_type: Seq<char>,
    kinds: Seq<StepKindView>,
    now_ms: u64,
) -> TaskView {
    TaskView {
        id: reg.task_id,
        register: reg.id,
        goal,
        artefact_type,
        steps: kinds.map_values(|kind: StepKindView| pending_step(kind)),
        status: TaskStatus::Queued,
        created_ms: now_ms,
    }
}

/// The kernel with a task in its table.
pub open spec fn task_saved<A>(k: KernelView<A>, t: TaskView) -> KernelView<A> {
    KernelView { store: StoreView { tasks: k.store.tasks.insert(t.id, t), ..k.store }, ..k }
}

/// Creating a task: its artefact type is held to the rule for kinds, its register
/// is submitted, and it takes the task id of that register.
pub open spec fn creating<A>(
    k: KernelView<A>,
    ctx: CtxView,
    goal: Seq<char>,
    artefact_type: Seq<char>,
    label: Label,
    kinds: Seq<StepKindView>,
) -> (KernelView<A>, Result<TaskView, KernelErrorView>) {
    if !plain_kind(artefact_type) {
        (k, Err(kind_refusal()))
    } else {
        let (after, submission) = submitted(k, ctx, goal, label);
        match submission {
            Err(e) => (after, Err(e)),
            Ok(id) => match register_read(after.store, ctx, id) {
                Err(e) => (after, Err(e)),
                Ok(reg) => {
                    let t = queued_task(reg, goal, artefact_type, kinds, ctx.now_ms);
                    (task_saved(after, t), Ok(t))
                },
            },
        }
    }
}

/// Whether `ctx` may see a task: the label of its register flows to the caller's
/// clearance. A task without a register is seen by nobody.
pub open spec fn visible(s: StoreView, ctx: CtxView, t: TaskView) -> bool {
    s.registers.contains_key(t.register) && flows(s.registers[t.register].label, ctx.clearance)
}

/// The task with this id, as `ctx` may see it. One that is not there and one that
/// the caller is not cleared for look the same.
pub open spec fn seen(s: StoreView, ctx: CtxView, id: Seq<char>) -> Option<TaskView> {
    if s.tasks.contains_key(id) && visible(s, ctx, s.tasks[id]) {
        Some(s.tasks[id])
    } else {
        None
    }
}

/// The ids of tasks.
pub open spec fn task_ids(ts: Seq<TaskView>) -> Seq<Seq<char>> {
    ts.map_values(|t: TaskView| t.id)
}

/// Whether `ts` is every task that `ctx` may see, in the order of their ids.
pub open spec fn lists_visible(s: StoreView, ctx: CtxView, ts: Seq<TaskView>) -> bool {
    &&& ascending(task_ids(ts))
    &&& forall|i: int| 0 <= i < ts.len() ==> seen(s, ctx, (#[trigger] ts[i]).id) == Some(ts[i])
    &&& forall|id: Seq<char>|
        #![trigger task_ids(ts).contains(id)]
        #![trigger seen(s, ctx, id)]
        seen(s, ctx, id) is Some ==> task_ids(ts).contains(id)
}

/// How the decisions of a register stood once a step had finished: how many there
/// were, and the length and hash of the newest. Never what any of them says.
#[derive(Debug)]
pub struct DecisionsAfterStep {
    pub after_step: usize,
    pub count: usize,
    pub last_len_bytes: usize,
    pub last_hash: String,
}

/// What a [`DecisionsAfterStep`] says.
#[verifier::ext_equal]
pub struct DecisionsAfterStepView {
    pub after_step: nat,
    pub count: nat,
    pub last_len_bytes: nat,
    pub last_hash: Seq<char>,
}

impl View for DecisionsAfterStep {
    type V = DecisionsAfterStepView;

    open spec fn view(&self) -> DecisionsAfterStepView {
        DecisionsAfterStepView {
            after_step: self.after_step as nat,
            count: self.count as nat,
            last_len_bytes: self.last_len_bytes as nat,
            last_hash: self.last_hash@,
        }
    }
}

impl Duplicate for DecisionsAfterStep {
    fn dup(&self) -> (r: Self) {
        DecisionsAfterStep {
            after_step: self.after_step,
            count: self.count,
            last_len_bytes: self.last_len_bytes,
            last_hash: self.last_hash.dup(),
        }
    }
}

/// What the steps from `i` on left, when `count` decisions are accounted for: the
/// n-th finished step that leaves a decision owns the n-th decision, and a
/// register with fewer ends the list.
pub open spec fn decisions_from(
    steps: Seq<StepView>,
    decisions: Seq<Seq<char>>,
    i: nat,
    count: nat,
) -> Seq<DecisionsAfterStepView>
    decreases steps.len() - i,
{
    if i >= steps.len() {
        Seq::empty()
    } else if !(steps[i as int].status is Done) || !leaves_decision(steps[i as int].kind) {
        decisions_from(steps, decisions, i + 1, count)
    } else if count >= decisions.len() {
        Seq::empty()
    } else {
        let newest = decisions[count as int];
        seq![
            DecisionsAfterStepView {
                after_step: i,
                count: count + 1,
                last_len_bytes: encode_utf8(newest).len(),
                last_hash: text_hash(newest),
            },
        ] + decisions_from(steps, decisions, i + 1, count + 1)
    }
}

/// What an approval of the task has to name, while the task is at its approve
/// step: the newest artefact of its register, or the register itself when it has
/// none.
pub open spec fn subject_of(s: StoreView, ctx: CtxView, task_id: Seq<char>) -> Result<
    Seq<char>,
    KernelErrorView,
> {
    match seen(s, ctx, task_id) {
        None => Err(KernelErrorView::NotFound(task_id)),
        Some(t) => {
            let n = next_step(t.steps) as int;
            if n >= t.steps.len() || !(t.steps[n].kind is Approve) {
                Err(
                    KernelErrorView::Gate(
                        "task "@ + task_id + " is not waiting for an approval; its status is "@
                            + status_text(t.status),
                    ),
                )
            } else {
                match register_read(s, ctx, t.register) {
                    Err(e) => Err(e),
                    Ok(reg) => if reg.artefacts.len() > 0 {
                        Ok(reg.artefacts.last().hash)
                    } else {
                        Ok(canonical_hash(register_json(reg)))
                    },
                }
            }
        },
    }
}

impl<A> RealKernel<A> {
    /// Write a task in place of the one with its id.
    pub(crate) fn save_task(&mut self, t: &Task)
        requires
            old(self).wf(),
        ensures
            final(self).wf(),
            final(self)@ == task_saved(old(self)@, t@),
    {
        self.store.tasks.insert(t.id.as_str(), t.dup());
    }

    /// Create a task with these steps, none of them started.
    pub fn create_task(
        &mut self,
        ctx: &Ctx,
        goal: &str,
        artefact_type: &str,
        label: Label,
        steps: Vec<StepKind>,
    ) -> (r: Result<Task, KernelError>)
        requires
            old(self).wf(),
        ensures
            final(self).wf(),
            (final(self)@, outcome(r)) == creating(
                old(self)@,
                ctx@,
                goal@,
                artefact_type@,
                label,
                all(steps@),
            ),
    {
        if let Err(e) = validate_artefact_kind(artefact_type) {
            return Err(e);
        }
        let id = match self.submit_task(ctx, goal, label) {
            Err(e) => return Err(e),
            Ok(id) => id,
        };
        let reg = match self.read_register(ctx, id.as_str()) {
            Err(e) => return Err(e),
            Ok(reg) => reg,
        };
        let ghost kinds = all(steps@);
        let mut rows: Vec<Step> = Vec::new();
        let mut i: usize = 0;
        while i < steps.len()
            invariant
                i <= steps@.len(),
                kinds == all(steps@),
                rows@.len() == i,
                forall|j: int| 0 <= j < i ==> #[trigger] rows@[j]@ == pending_step(kinds[j]),
            decreases steps@.len() - i,
        {
            let step = Step {
                kind: steps[i].dup(),
                status: StepStatus::Pending,
                started_ms: None,
                ended_ms: None,
                tokens: 0,
            };
            assert(step@ =~= pending_step(kinds[i as int]));
            rows.push(step);
            i += 1;
        }
        let task = Task {
            id: reg.task_id,
            register: reg.id,
            goal: goal.to_owned(),
            artefact_type: artefact_type.to_owned(),
            steps: rows,
            status: TaskStatus::Queued,
            created_ms: ctx.now_ms,
        };
        assert(task@.steps =~= kinds.map_values(|kind: StepKindView| pending_step(kind)));
        self.save_task(&task);
        Ok(task)
    }

    fn visible_to(&self, ctx: &Ctx, t: &Task) -> (r: bool)
        requires
            self.wf(),
        ensures
            r == visible(self@.store, ctx@, t@),
    {
        match self.store.registers.get(t.register.as_str()) {
            Some(reg) => reg.label.flows_to(&ctx.clearance),
            None => false,
        }
    }

    /// One task, as `ctx` may see it.
    pub fn task(&self, ctx: &Ctx, id: &str) -> (r: Option<Task>)
        requires
            self.wf(),
        ensures
            r is Some <==> seen(self@.store, ctx@, id@) is Some,
            r is Some ==> Some(r->0@) == seen(self@.store, ctx@, id@),
    {
        match self.store.tasks.get(id) {
            Some(t) => if self.visible_to(ctx, t) {
                Some(t.dup())
            } else {
                None
            },
            None => None,
        }
    }

    /// Every task that `ctx` may see, in the order of their ids.
    pub fn tasks(&self, ctx: &Ctx) -> (r: Vec<Task>)
        requires
            self.wf(),
        ensures
            lists_visible(self@.store, ctx@, all(r@)),
    {
        let ghost s = self@.store;
        let ghost keys = self.store.tasks.keys();
        let ghost mut rows: Seq<int> = Seq::empty();
        let mut r: Vec<Task> = Vec::new();
        let mut i: usize = 0;
        while i < self.store.tasks.len()
            invariant
                self.wf(),
                s == self@.store,
                keys == self.store.tasks.keys(),
                i <= keys.len(),
                rows.len() == r@.len(),
                forall|j: int|
                    0 <= j < rows.len() ==> 0 <= #[trigger] rows[j] < i && seen(
                        s,
                        ctx@,
                        keys[rows[j]],
                    ) == Some(r@[j]@) && r@[j]@.id == keys[rows[j]],
                forall|a: int, b: int|
                    #![trigger rows[a], rows[b]]
                    0 <= a < b < rows.len() ==> rows[a] < rows[b],
                forall|m: int|
                    0 <= m < i && seen(s, ctx@, #[trigger] keys[m]) is Some ==> rows.contains(m),
            decreases keys.len() - i,
        {
            let t = self.store.tasks.value_at(i);
            assert(s.tasks.contains_key(keys[i as int]));
            if self.visible_to(ctx, t) {
                let ghost before = rows;
                r.push(t.dup());
                proof {
                    rows = before.push(i as int);
                    assert(rows[before.len() as int] == i);
                    assert forall|m: int|
                        0 <= m < i + 1 && seen(
                            s,
                            ctx@,
                            #[trigger] keys[m],
                        ) is Some implies rows.contains(m) by {
                        if m < i {
                            let j = before.index_of(m);
                            assert(rows[j] == m);
                        }
                    }
                }
            }
            i += 1;
        }
        proof {
            self.store.tasks.keys_are_domain();
            let ts = all(r@);
            assert forall|a: int, b: int|
                #![trigger task_ids(ts)[a], task_ids(ts)[b]]
                0 <= a < b < task_ids(ts).len() implies before(
                task_ids(ts)[a],
                task_ids(ts)[b],
            ) by {
                assert(rows[a] < rows[b]);
                assert(before(keys[rows[a]], keys[rows[b]]));
            }
            assert forall|j: int| 0 <= j < ts.len() implies seen(s, ctx@, (#[trigger] ts[j]).id)
                == Some(ts[j]) by {
                assert(0 <= rows[j]);
            }
            assert forall|id: Seq<char>|
                #![trigger task_ids(ts).contains(id)]
                #![trigger seen(s, ctx@, id)]
                seen(s, ctx@, id) is Some implies task_ids(ts).contains(id) by {
                assert(keys.contains(id));
                let m = keys.index_of(id);
                assert(keys[m] == id);
                let j = rows.index_of(m);
                assert(rows[j] == m);
                assert(task_ids(ts)[j] == id);
            }
        }
        r
    }

    /// What each finished step of a task left among the decisions of its register,
    /// as `ctx` may read that register.
    pub fn task_decisions(&self, ctx: &Ctx, task: &Task) -> (r: Result<
        Vec<DecisionsAfterStep>,
        KernelError,
    >)
        requires
            self.wf(),
        ensures
            match register_read(self@.store, ctx@, task@.register) {
                Err(e) => r is Err && r->Err_0@ == e,
                Ok(reg) => r is Ok && all(r->Ok_0@) == decisions_from(
                    task@.steps,
                    reg.decisions,
                    0,
                    0,
                ),
            },
    {
        let reg = match self.read_register(ctx, task.register.as_str()) {
            Err(e) => return Err(e),
            Ok(reg) => reg,
        };
        let ghost steps = task@.steps;
        let ghost decisions = reg@.decisions;
        let mut out: Vec<DecisionsAfterStep> = Vec::new();
        let mut count: usize = 0;
        let mut i: usize = 0;
        assert(all(out@) + decisions_from(steps, decisions, 0, 0) =~= decisions_from(
            steps,
            decisions,
            0,
            0,
        ));
        while i < task.steps.len()
            invariant
                i <= task.steps@.len(),
                count <= i,
                steps == task@.steps,
                decisions == reg@.decisions,
                register_read(self@.store, ctx@, task@.register) == Ok::<
                    RegisterView,
                    KernelErrorView,
                >(reg@),
                all(out@) + decisions_from(steps, decisions, i as nat, count as nat)
                    == decisions_from(steps, decisions, 0, 0),
            decreases task.steps@.len() - i,
        {
            let step = &task.steps[i];
            assert(steps[i as int] == step@);
            if step.status.is_done() && step.kind.raises_decision() {
                if count >= reg.decisions.len() {
                    assert(all(out@) + Seq::<DecisionsAfterStepView>::empty() =~= all(out@));
                    return Ok(out);
                }
                let newest = &reg.decisions[count];
                assert(decisions[count as int] == newest@);
                let ghost before = all(out@);
                let row = DecisionsAfterStep {
                    after_step: i,
                    count: count + 1,
                    last_len_bytes: newest.as_str().as_bytes().len(),
                    last_hash: hash_text(newest.as_str()),
                };
                let ghost rest = decisions_from(
                    steps,
                    decisions,
                    (i + 1) as nat,
                    (count + 1) as nat,
                );
                out.push(row);
                assert(all(out@) =~= before.push(row@));
                assert(before + (seq![row@] + rest) =~= before.push(row@) + rest);
                count += 1;
            }
            i += 1;
        }
        assert(all(out@) + Seq::<DecisionsAfterStepView>::empty() =~= all(out@));
        Ok(out)
    }

    /// What a human approval of the task has to name as its subject.
    pub fn approval_subject(&self, ctx: &Ctx, task_id: &str) -> (r: Result<String, KernelError>)
        requires
            self.wf(),
        ensures
            outcome(r) == subject_of(self@.store, ctx@, task_id@),
    {
        let t = match self.task(ctx, task_id) {
            None => return Err(KernelError::NotFound(task_id.to_owned())),
            Some(t) => t,
        };
        let n: usize = t.next();
        let at_approve = n < t.steps.len() && match &t.steps[n].kind {
            StepKind::Approve => true,
            _ => false,
        };
        assert(n < t.steps@.len() ==> t@.steps[n as int] == t.steps@[n as int]@);
        if !at_approve {
            return Err(
                KernelError::Gate(
                    cat4(
                        "task ",
                        task_id,
                        " is not waiting for an approval; its status is ",
                        status_name(t.status),
                    ),
                ),
            );
        }
        let reg = match self.read_register(ctx, t.register.as_str()) {
            Err(e) => return Err(e),
            Ok(reg) => reg,
        };
        if reg.artefacts.len() > 0 {
            let last: usize = reg.artefacts.len() - 1;
            assert(reg@.artefacts.last() == reg.artefacts@[last as int]@);
            Ok(reg.artefacts[last].hash.dup())
        } else {
            let form = register_to_json(&reg);
            Ok(hash_canonical(&form))
        }
    }
}

/// A task above a caller's clearance is in none of the views of tasks: it is not
/// shown, not listed, and has no approval subject.
pub proof fn hidden_task_is_nowhere(
    s: StoreView,
    ctx: CtxView,
    id: Seq<char>,
    ts: Seq<TaskView>,
)
    requires
        s.tasks.contains_key(id),
        !visible(s, ctx, s.tasks[id]),
        lists_visible(s, ctx, ts),
    ensures
        seen(s, ctx, id) is None,
        !task_ids(ts).contains(id),
        subject_of(s, ctx, id) == Err::<Seq<char>, KernelErrorView>(KernelErrorView::NotFound(id)),
{
    if task_ids(ts).contains(id) {
        let i = task_ids(ts).index_of(id);
        assert(ts[i].id == id);
    }
}

/// There is one list of the tasks a caller may see.
pub proof fn task_list_is_unique(
    s: StoreView,
    ctx: CtxView,
    a: Seq<TaskView>,
    b: Seq<TaskView>,
)
    requires
        lists_visible(s, ctx, a),
        lists_visible(s, ctx, b),
    ensures
        a == b,
{
    let ia = task_ids(a);
    let ib = task_ids(b);
    assert forall|id: Seq<char>| ia.contains(id) implies ib.contains(id) by {
        let i = ia.index_of(id);
        assert(seen(s, ctx, a[i].id) is Some);
    }
    assert forall|id: Seq<char>| ib.contains(id) implies ia.contains(id) by {
        let i = ib.index_of(id);
        assert(seen(s, ctx, b[i].id) is Some);
    }
    crate::table::same_keys_same_order(ia, ib);
    assert forall|i: int| 0 <= i < a.len() implies a[i] == b[i] by {
        assert(ia[i] == ib[i]);
        assert(seen(s, ctx, a[i].id) == Some(a[i]));
        assert(seen(s, ctx, b[i].id) == Some(b[i]));
    }
    assert(a =~= b);
}

} // verus!
