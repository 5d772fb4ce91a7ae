//! Tasks: a goal, and the steps that lead to it.
use crate::model::{all, dup_all, Duplicate};
use vstd::prelude::*;

verus! {

/// One unit of work. The first three are the roles a register is inferred under.
#[derive(Debug)]
pub enum StepKind {
    Plan { arch_id: String },
    Draft { arch_id: String },
    Judge { arch_id: String },
    Harness { name: String },
    Approve,
    Release { to_dir: String },
}

/// What a [`StepKind`] says.
pub enum StepKindView {
    Plan { arch_id: Seq<char> },
    Draft { arch_id: Seq<char> },
    Judge { arch_id: Seq<char> },
    Harness { name: Seq<char> },
    Approve,
    Release { to_dir: Seq<char> },
}

impl View for StepKind {
    type V = StepKindView;

    open spec fn view(&self) -> StepKindView {
        match self {
            StepKind::Plan { arch_id } => StepKindView::Plan { arch_id: arch_id@ },
            StepKind::Draft { arch_id } => StepKindView::Draft { arch_id: arch_id@ },
            StepKind::Judge { arch_id } => StepKindView::Judge { arch_id: arch_id@ },
            StepKind::Harness { name } => StepKindView::Harness { name: name@ },
            StepKind::Approve => StepKindView::Approve,
            StepKind::Release { to_dir } => StepKindView::Release { to_dir: to_dir@ },
        }
    }
}

impl Duplicate for StepKind {
    fn dup(&self) -> (r: Self) {
        match self {
            StepKind::Plan { arch_id } => StepKind::Plan { arch_id: arch_id.dup() },
            StepKind::Draft { arch_id } => StepKind::Draft { arch_id: arch_id.dup() },
            StepKind::Judge { arch_id } => StepKind::Judge { arch_id: arch_id.dup() },
            StepKind::Harness { name } => StepKind::Harness { name: name.dup() },
            StepKind::Approve => StepKind::Approve,
            StepKind::Release { to_dir } => StepKind::Release { to_dir: to_dir.dup() },
        }
    }
}

/// Whether running a step of this kind leaves a decision on the register.
pub open spec fn leaves_decision(kind: StepKindView) -> bool {
    kind is Plan || kind is Draft
}

impl StepKind {
    /// Whether running a step of this kind leaves a decision on the register.
    pub fn raises_decision(&self) -> (r: bool)
        ensures
            r == leaves_decision(self@),
    {
        match self {
            StepKind::Plan { .. } | StepKind::Draft { .. } => true,
            _ => false,
        }
    }
}

/// How far a step has come.
#[derive(Debug)]
pub enum StepStatus {
    Pending,
    Running,
    WaitingHuman,
    Done,
    Failed(String),
}

/// What a [`StepStatus`] says.
pub enum StepStatusView {
    Pending,
    Running,
    WaitingHuman,
    Done,
    Failed(Seq<char>),
}

impl View for StepStatus {
    type V = StepStatusView;

    open spec fn view(&self) -> StepStatusView {
        match self {
            StepStatus::Pending => StepStatusView::Pending,
            StepStatus::Running => StepStatusView::Running,
            StepStatus::WaitingHuman => StepStatusView::WaitingHuman,
            StepStatus::Done => StepStatusView::Done,
            StepStatus::Failed(why) => StepStatusView::Failed(why@),
        }
    }
}

impl Duplicate for StepStatus {
    fn dup(&self) -> (r: Self) {
        match self {
            StepStatus::Pending => StepStatus::Pending,
            StepStatus::Running => StepStatus::Running,
            StepStatus::WaitingHuman => StepStatus::WaitingHuman,
            StepStatus::Done => StepStatus::Done,
            StepStatus::Failed(why) => StepStatus::Failed(why.dup()),
        }
    }
}

impl StepStatus {
    /// Whether the step is done.
    pub fn is_done(&self) -> (r: bool)
        ensures
            r == (self@ is Done),
    {
        match self {
            StepStatus::Done => true,
            _ => false,
        }
    }

    /// Whether the step is running.
    pub fn is_running(&self) -> (r: bool)
        ensures
            r == (self@ is Running),
    {
        match self {
            StepStatus::Running => true,
            _ => false,
        }
    }
}

/// A step of a task, with what became of it.
#[derive(Debug)]
pub struct Step {
    pub kind: StepKind,
    pub status: StepStatus,
    pub started_ms: Option<u64>,
    pub ended_ms: Option<u64>,
    pub tokens: u32,
}

/// What a [`Step`] says.
#[verifier::ext_equal]
pub struct StepView {
    pub kind: StepKindView,
    pub status: StepStatusView,
    pub started_ms: Option<u64>,
    pub ended_ms: Option<u64>,
    pub tokens: u32,
}

impl View for Step {
    type V = StepView;

    open spec fn view(&self) -> StepView {
        StepView {
            kind: self.kind@,
            status: self.status@,
            started_ms: self.started_ms,
            ended_ms: self.ended_ms,
            tokens: self.tokens,
        }
    }
}

impl Duplicate for Step {
    fn dup(&self) -> (r: Self) {
        Step {
            kind: self.kind.dup(),
            status: self.status.dup(),
            started_ms: self.started_ms,
            ended_ms: self.ended_ms,
            tokens: self.tokens,
        }
    }
}

/// Where a task stands.
#[derive(Clone, Copy, Debug, PartialEq, Eq, Structural)]
pub enum TaskStatus {
    Queued,
    Running,
    WaitingHuman,
    Done,
    Failed,
    Stopped,
}

/// A status as the wire spells it.
pub open spec fn status_text(s: TaskStatus) -> Seq<char> {
    match s {
        TaskStatus::Queued => "queued"@,
        TaskStatus::Running => "running"@,
        TaskStatus::WaitingHuman => "waiting_human"@,
        TaskStatus::Done => "done"@,
        TaskStatus::Failed => "failed"@,
        TaskStatus::Stopped => "stopped"@,
    }
}

/// A status as the wire spells it.
pub fn status_name(s: TaskStatus) -> (r: &'static str)
    ensures
        r@ == status_text(s),
{
    match s {
        TaskStatus::Queued => "queued",
        TaskStatus::Running => "running",
        TaskStatus::WaitingHuman => "waiting_human",
        TaskStatus::Done => "done",
        TaskStatus::Failed => "failed",
        TaskStatus::Stopped => "stopped",
    }
}

/// A goal, the register it is worked out on, and the steps that lead to it.
#[derive(Debug)]
pub struct Task {
    pub id: String,
    pub register: String,
    pub goal: String,
    pub artefact_type: String,
    pub steps: Vec<Step>,
    pub status: TaskStatus,
    pub created_ms: u64,
}

/// What a [`Task`] says.
#[verifier::ext_equal]
pub struct TaskView {
    pub id: Seq<char>,
    pub register: Seq<char>,
    pub goal: Seq<char>,
    pub artefact_type: Seq<char>,
    pub steps: Seq<StepView>,
    pub status: TaskStatus,
    pub created_ms: u64,
}

impl View for Task {
    type V = TaskView;

    open spec fn view(&self) -> TaskView {
        TaskView {
            id: self.id@,
            register: self.register@,
            goal: self.goal@,
            artefact_type: self.artefact_type@,
            steps: all(self.steps@),
            status: self.status,
            created_ms: self.created_ms,
        }
    }
}

impl Duplicate for Task {
    fn dup(&self) -> (r: Self) {
        Task {
            id: self.id.dup(),
            register: self.register.dup(),
            goal: self.goal.dup(),
            artefact_type: self.artefact_type.dup(),
            steps: dup_all(&self.steps),
            status: self.status,
            created_ms: self.created_ms,
        }
    }
}

/// The first step that is not done, or the number of steps when all are.
pub open spec fn next_step(steps: Seq<StepView>) -> nat
    decreases steps.len(),
{
    if steps.len() == 0 || !(steps[0].status is Done) {
        0
    } else {
        1 + next_step(steps.drop_first())
    }
}

/// Whether every step is done.
pub open spec fn all_done(steps: Seq<StepView>) -> bool {
    forall|i: int| 0 <= i < steps.len() ==> (#[trigger] steps[i]).status is Done
}

/// The next step is the first that is not done.
pub proof fn next_step_is_first(steps: Seq<StepView>)
    ensures
        next_step(steps) <= steps.len(),
        forall|i: int| 0 <= i < next_step(steps) ==> (#[trigger] steps[i]).status is Done,
        next_step(steps) < steps.len() ==> !(steps[next_step(steps) as int].status is Done),
    decreases steps.len(),
{
    if steps.len() > 0 && steps[0].status is Done {
        let rest = steps.drop_first();
        next_step_is_first(rest);
        assert forall|i: int| 0 <= i < next_step(steps) implies (#[trigger] steps[i]).status is Done by {
            if i > 0 {
                assert(steps[i] == rest[i - 1]);
            }
        }
    }
}

impl Task {
    /// The first step that is not done, or the number of steps when all are.
    pub fn next(&self) -> (n: usize)
        ensures
            n == next_step(self@.steps),
            n <= self.steps@.len(),
    {
        let ghost all_steps = self@.steps;
        let mut i: usize = 0;
        assert(all_steps.skip(0) =~= all_steps);
        while i < self.steps.len() && self.steps[i].status.is_done()
            invariant
                i <= self.steps@.len(),
                all_steps == all(self.steps@),
                next_step(all_steps) == i + next_step(all_steps.skip(i as int)),
            decreases self.steps@.len() - i,
        {
            let ghost rest = all_steps.skip(i as int);
            assert(rest[0] == self.steps@[i as int]@);
            assert(rest.drop_first() =~= all_steps.skip(i + 1));
            i += 1;
        }
        assert(i < self.steps@.len() ==> all_steps.skip(i as int)[0] == self.steps@[i as int]@);
        i
    }

    /// Whether every step is done.
    pub fn finished(&self) -> (r: bool)
        ensures
            r == all_done(self@.steps),
    {
        let n: usize = self.next();
        proof {
            next_step_is_first(self@.steps);
        }
        n == self.steps.len()
    }
}

} // verus!
