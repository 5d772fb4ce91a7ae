//! What a task is when it is created, who sees it, and what it shows of its decisions.
use crate::artefacts::{artefact_read, attaching};
use crate::error::KernelErrorView;
use crate::hash::text_hash;
use crate::json::{canonical_hash, JsonView};
use crate::kernel::{ids_differ, register_read, submitted, KernelView};
use crate::labels::{DataClass, Label};
use crate::principal::CtxView;
use crate::register::RegisterView;
use crate::store::{BlobView, LedgerEventView, StoreView};
use crate::task::{StepKindView, StepView, TaskStatus, TaskView};
use crate::tasks::{creating, decisions_from, plain_kind, seen, subject_of};
use crate::text::decimal;
use crate::wire::register_json;
use vstd::prelude::*;
use vstd::utf8::encode_utf8;

verus! {

/// A submitted task has a register of its own, under its label and with its goal, on which
/// nothing is known yet; both have ids that no task or register was given before. The record
/// names the register, and nothing else changes.
pub proof fn submitted_task_has_a_fresh_register<A>(
    k: KernelView<A>,
    ctx: CtxView,
    goal: Seq<char>,
    label: Label,
)
    requires
        k.store.counter <= u64::MAX - 2,
    ensures
        ({
            let (after, r) = submitted(k, ctx, goal, label);
            let id = r->Ok_0;
            let reg = after.store.registers[id];
            let n = k.store.counter as nat;
            &&& r is Ok
            &&& id == "reg-"@ + k.node_id + "-"@ + decimal(n + 1)
            &&& after.store.registers == k.store.registers.insert(id, reg)
            &&& reg.id == id
            &&& reg.task_id == "task-"@ + k.node_id + "-"@ + decimal(n + 2)
            &&& reg.goal == goal
            &&& reg.label == label
            &&& reg.constraints.len() == 0
            &&& reg.evidence.len() == 0
            &&& reg.decisions.len() == 0
            &&& reg.open_questions.len() == 0
            &&& reg.artefacts.len() == 0
            &&& after.store.counter == n + 2
            &&& after.store.ledger == k.store.ledger.push(
                LedgerEventView {
                    kind: "task.submitted"@,
                    wall_ms: ctx.now_ms,
                    payload: JsonView::Text(id),
                },
            )
            &&& after == (KernelView {
                store: StoreView {
                    counter: after.store.counter,
                    registers: after.store.registers,
                    ledger: after.store.ledger,
                    ..k.store
                },
                ..k
            })
        }),
{
    reveal_strlit("reg");
    reveal_strlit("task");
    reveal_strlit("-");
    reveal_strlit("reg-");
    reveal_strlit("task-");
    assert("reg"@ + "-"@ =~= "reg-"@);
    assert("task"@ + "-"@ =~= "task-"@);
}

/// Two tasks that are submitted one after the other have different registers and different
/// ids, whoever submits them.
pub proof fn submitted_tasks_are_two<A>(
    k: KernelView<A>,
    ctx: CtxView,
    goal: Seq<char>,
    label: Label,
    other: CtxView,
    another: Seq<char>,
    others: Label,
)
    requires
        k.store.counter <= u64::MAX - 4,
    ensures
        ({
            let (one, a) = submitted(k, ctx, goal, label);
            let (two, b) = submitted(one, other, another, others);
            &&& a is Ok
            &&& b is Ok
            &&& a->Ok_0 != b->Ok_0
            &&& two.store.registers[a->Ok_0] == one.store.registers[a->Ok_0]
            &&& two.store.registers[a->Ok_0].task_id != two.store.registers[b->Ok_0].task_id
        }),
{
    let n = k.store.counter as nat;
    if crate::kernel::id_text("reg"@, k.node_id, n + 1) == crate::kernel::id_text(
        "reg"@,
        k.node_id,
        n + 3,
    ) {
        ids_differ("reg"@, k.node_id, n + 1, n + 3);
    }
    if crate::kernel::id_text("task"@, k.node_id, n + 2) == crate::kernel::id_text(
        "task"@,
        k.node_id,
        n + 4,
    ) {
        ids_differ("task"@, k.node_id, n + 2, n + 4);
    }
}

/// A task is created as it was asked for: with the goal and the artefact type that were given
/// and one step for each kind, in that order, none of them begun. It has a register of its
/// own, and is queued from now on.
pub proof fn created_task_is_as_asked<A>(
    k: KernelView<A>,
    ctx: CtxView,
    goal: Seq<char>,
    artefact_type: Seq<char>,
    label: Label,
    kinds: Seq<StepKindView>,
)
    requires
        creating(k, ctx, goal, artefact_type, label, kinds).1 is Ok,
    ensures
        ({
            let (after, r) = creating(k, ctx, goal, artefact_type, label, kinds);
            let t = r->Ok_0;
            let reg = after.store.registers[t.register];
            &&& t.goal == goal
            &&& t.artefact_type == artefact_type
            &&& t.status == TaskStatus::Queued
            &&& t.created_ms == ctx.now_ms
            &&& t.steps.len() == kinds.len()
            &&& forall|i: int|
                0 <= i < kinds.len() ==> {
                    &&& (#[trigger] t.steps[i]).kind == kinds[i]
                    &&& t.steps[i].status is Pending
                    &&& t.steps[i].started_ms is None
                    &&& t.steps[i].ended_ms is None
                    &&& t.steps[i].tokens == 0
                }
            &&& after.store.registers.contains_key(t.register)
            &&& reg.id == t.register
            &&& reg.task_id == t.id
            &&& reg.goal == goal
            &&& reg.label == label
            &&& reg.decisions.len() == 0 && reg.artefacts.len() == 0
            &&& after.store.tasks == k.store.tasks.insert(t.id, t)
            &&& after.store.tasks.contains_key(t.id)
            &&& seen(after.store, ctx, t.id) == Some(t)
            &&& after.store.ledger.len() == k.store.ledger.len() + 1
            &&& after.store.ledger.last().kind == "task.submitted"@
            &&& after.store.ledger.last().payload == JsonView::Text(t.register)
            &&& after.store.counter == k.store.counter + 2
        }),
{
}

/// A task is created whenever its artefact type makes part of a file name, its label may be
/// seen by who asks, and ids are left; a refusal for the type leaves no trace.
pub proof fn task_is_created_when_it_may_be<A>(
    k: KernelView<A>,
    ctx: CtxView,
    goal: Seq<char>,
    artefact_type: Seq<char>,
    label: Label,
    kinds: Seq<StepKindView>,
)
    ensures
        plain_kind(artefact_type) && k.store.counter <= u64::MAX - 2 && label.scope.rank()
            <= ctx.clearance.max_scope.rank() && (label.data_class == DataClass::Own
            || ctx.clearance.third_party_allowed) ==> creating(
            k,
            ctx,
            goal,
            artefact_type,
            label,
            kinds,
        ).1 is Ok,
        !plain_kind(artefact_type) ==> creating(k, ctx, goal, artefact_type, label, kinds).1 is Err
            && creating(k, ctx, goal, artefact_type, label, kinds).0 == k,
{
}

/// A kind is letters, digits, dots, dashes and underscores, at least one and at most
/// thirty-two, with no dot in front: it has nothing in it that a path is made of.
pub proof fn plain_kind_makes_no_path(kind: Seq<char>)
    requires
        plain_kind(kind),
    ensures
        1 <= kind.len() <= 32,
        kind[0] != '.',
        forall|i: int|
            0 <= i < kind.len() ==> {
                let c = #[trigger] kind[i];
                ||| 'a' <= c <= 'z'
                ||| 'A' <= c <= 'Z'
                ||| '0' <= c <= '9'
                ||| c == '.'
                ||| c == '-'
                ||| c == '_'
            },
        !kind.contains('/'),
        !kind.contains('\\'),
        !kind.contains(':'),
{
}

/// Every such word is a kind: nothing that names a file plainly is refused.
pub proof fn short_plain_word_is_a_kind(kind: Seq<char>)
    requires
        1 <= kind.len() <= 32,
        kind[0] != '.',
        forall|i: int|
            0 <= i < kind.len() ==> {
                let c = #[trigger] kind[i];
                ||| 'a' <= c <= 'z'
                ||| 'A' <= c <= 'Z'
                ||| '0' <= c <= '9'
                ||| c == '.'
                ||| c == '-'
                ||| c == '_'
            },
    ensures
        plain_kind(kind),
{
}

/// A task is seen exactly by who may see its register: the register's scope is within reach,
/// and its data is the owner's own or somebody else's is allowed.
pub proof fn task_is_seen_by_who_is_cleared(s: StoreView, ctx: CtxView, id: Seq<char>)
    ensures
        ({
            let t = s.tasks[id];
            let label = s.registers[t.register].label;
            &&& seen(s, ctx, id) is Some <==> {
                &&& s.tasks.contains_key(id)
                &&& s.registers.contains_key(t.register)
                &&& label.scope.rank() <= ctx.clearance.max_scope.rank()
                &&& label.data_class == DataClass::Own || ctx.clearance.third_party_allowed
            }
            &&& seen(s, ctx, id) matches Some(found) ==> found == t
        }),
{
}

/// A register is read exactly by who is cleared for it, as it was written; anybody else is
/// told why not.
pub proof fn register_is_read_by_who_is_cleared(s: StoreView, ctx: CtxView, id: Seq<char>)
    ensures
        ({
            let reg = s.registers[id];
            let r = register_read(s, ctx, id);
            let cleared = reg.label.scope.rank() <= ctx.clearance.max_scope.rank() && (
            reg.label.data_class == DataClass::Own || ctx.clearance.third_party_allowed);
            &&& r is Ok <==> s.registers.contains_key(id) && cleared
            &&& r matches Ok(read) ==> read == reg
            &&& !s.registers.contains_key(id) ==> r == Err::<RegisterView, KernelErrorView>(
                KernelErrorView::NotFound(id),
            )
            &&& s.registers.contains_key(id) && !cleared ==> r is Err && r->Err_0 is I2
        }),
{
}

/// What is attached is kept under the label of its register and belongs to the register's
/// task: the register names it last, after everything it named before. Nothing else changes,
/// and the record says that the register was written.
pub proof fn attached_bytes_are_the_newest_artefact<A>(
    k: KernelView<A>,
    ctx: CtxView,
    reg_id: Seq<char>,
    kind: Seq<char>,
    bytes: Seq<u8>,
)
    requires
        crate::kernel::filed(k.store),
        attaching(k, ctx, reg_id, kind, bytes).1 is Ok,
    ensures
        ({
            let (after, r) = attaching(k, ctx, reg_id, kind, bytes);
            let e = r->Ok_0;
            let reg = k.store.registers[reg_id];
            let now = after.store.registers[reg_id];
            &&& k.store.registers.contains_key(reg_id)
            &&& plain_kind(kind)
            &&& e.subject == "task:"@ + reg.task_id
            &&& e.label == reg.label
            &&& bytes.len() <= u64::MAX ==> e.len == bytes.len()
            &&& after.store.blobs == k.store.blobs.insert(
                e.hash,
                BlobView { subject: e.subject, label: reg.label, bytes },
            )
            &&& now.artefacts.len() == reg.artefacts.len() + 1
            &&& now.artefacts.last().hash == e.hash
            &&& now.artefacts.last().kind == kind
            &&& now.artefacts.drop_last() == reg.artefacts
            &&& now == (RegisterView { artefacts: now.artefacts, ..reg })
            &&& after.store.registers == k.store.registers.insert(reg_id, now)
            &&& after.store.ledger == k.store.ledger.push(
                LedgerEventView {
                    kind: "register.written"@,
                    wall_ms: ctx.now_ms,
                    payload: JsonView::Text(reg_id),
                },
            )
            &&& after == (KernelView {
                store: StoreView {
                    blobs: after.store.blobs,
                    registers: after.store.registers,
                    ledger: after.store.ledger,
                    ..k.store
                },
                ..k
            })
        }),
{
    let now = attaching(k, ctx, reg_id, kind, bytes).0.store.registers[reg_id];
    assert(k.store.registers[reg_id].id == reg_id);
    assert(now.artefacts.drop_last() =~= k.store.registers[reg_id].artefacts);
}

/// Bytes are attached whenever their kind is a plain one and the register may be read.
pub proof fn bytes_are_attached_when_they_may_be<A>(
    k: KernelView<A>,
    ctx: CtxView,
    reg_id: Seq<char>,
    kind: Seq<char>,
    bytes: Seq<u8>,
)
    ensures
        attaching(k, ctx, reg_id, kind, bytes).1 is Ok <==> plain_kind(kind) && register_read(
            k.store,
            ctx,
            reg_id,
        ) is Ok,
        attaching(k, ctx, reg_id, kind, bytes).1 is Err ==> attaching(
            k,
            ctx,
            reg_id,
            kind,
            bytes,
        ).0 == k,
{
}

/// An artefact is read by who is cleared for its label, where its bytes are those it was kept
/// with; anybody else is refused.
pub proof fn artefact_is_read_by_who_is_cleared(s: StoreView, ctx: CtxView, hash: Seq<char>)
    ensures
        ({
            let b = s.blobs[hash];
            let r = artefact_read(s, ctx, hash);
            let cleared = b.label.scope.rank() <= ctx.clearance.max_scope.rank() && (
            b.label.data_class == DataClass::Own || ctx.clearance.third_party_allowed);
            &&& r matches Ok(bytes) ==> s.blobs.contains_key(hash) && cleared && bytes == b.bytes
            &&& !s.blobs.contains_key(hash) ==> r == Err::<Seq<u8>, KernelErrorView>(
                KernelErrorView::NotFound(hash),
            )
            &&& s.blobs.contains_key(hash) && !cleared ==> r is Err && r->Err_0 is I2
            &&& s.blobs.contains_key(hash) && cleared && r is Err ==> r->Err_0 is Store
        }),
{
}

/// Without an artefact an approval names the register itself, as it is written: whatever is
/// written to the register makes another subject of it.
pub proof fn subject_without_artefacts_is_the_register(
    s: StoreView,
    ctx: CtxView,
    id: Seq<char>,
    t: TaskView,
    n: int,
)
    requires
        crate::step_laws::stands_at_step(s, ctx, id, t, n),
    ensures
        subject_of(s, ctx, id) is Ok <==> t.steps[n].kind is Approve,
        t.steps[n].kind is Approve && s.registers[t.register].artefacts.len() == 0 ==> subject_of(
            s,
            ctx,
            id,
        ) == Ok::<Seq<char>, KernelErrorView>(canonical_hash(register_json(s.registers[t.register]))),
        t.steps[n].kind is Approve && s.registers[t.register].artefacts.len() > 0 ==> subject_of(
            s,
            ctx,
            id,
        ) == Ok::<Seq<char>, KernelErrorView>(s.registers[t.register].artefacts.last().hash),
        !(t.steps[n].kind is Approve) ==> subject_of(s, ctx, id)->Err_0 is Gate,
{
    crate::step_laws::next_step_is_where_it_stands(s, ctx, id, t, n);
}

/// Whether a step left a decision: it is done, and it was a plan or a draft.
pub open spec fn left_a_decision(s: StepView) -> bool {
    s.status is Done && (s.kind is Plan || s.kind is Draft)
}

/// How many of the steps before this one left a decision.
pub open spec fn decisions_before(steps: Seq<StepView>, i: nat) -> nat
    decreases i,
{
    if i == 0 {
        0
    } else {
        decisions_before(steps, (i - 1) as nat) + (if left_a_decision(steps[i - 1]) {
            1nat
        } else {
            0
        })
    }
}

/// Each row of what the steps of a task left says of one finished plan or draft which decision
/// was its own: as many came before it as there were such steps before, and its length and
/// hash are those of that decision.
pub proof fn rows_tell_each_steps_own_decision(
    steps: Seq<StepView>,
    decisions: Seq<Seq<char>>,
    i: nat,
    row: int,
)
    requires
        i <= steps.len(),
        0 <= row < decisions_from(steps, decisions, i, decisions_before(steps, i)).len(),
    ensures
        ({
            let d = decisions_from(steps, decisions, i, decisions_before(steps, i))[row];
            let own = decisions[d.count - 1];
            &&& i <= d.after_step < steps.len()
            &&& left_a_decision(steps[d.after_step as int])
            &&& d.count == decisions_before(steps, d.after_step) + 1
            &&& d.count <= decisions.len()
            &&& d.last_len_bytes == encode_utf8(own).len()
            &&& d.last_hash == text_hash(own)
        }),
    decreases steps.len() - i,
{
    let count = decisions_before(steps, i);
    if i < steps.len() {
        assert(decisions_before(steps, i + 1) == count + (if left_a_decision(steps[i as int]) {
            1nat
        } else {
            0
        }));
        if !left_a_decision(steps[i as int]) {
            rows_tell_each_steps_own_decision(steps, decisions, i + 1, row);
        } else if row > 0 {
            let rest = decisions_from(steps, decisions, i + 1, count + 1);
            assert(decisions_from(steps, decisions, i, count)[row] == rest[row - 1]);
            rows_tell_each_steps_own_decision(steps, decisions, i + 1, row - 1);
        }
    }
}

/// Every finished plan or draft has its row, in the order of the steps, as far as there are
/// decisions.
pub proof fn every_finished_step_has_its_row(
    steps: Seq<StepView>,
    decisions: Seq<Seq<char>>,
    i: nat,
    j: int,
) -> (row: int)
    requires
        i <= j < steps.len(),
        left_a_decision(steps[j]),
        decisions_before(steps, j as nat) < decisions.len(),
    ensures
        ({
            let rows = decisions_from(steps, decisions, i, decisions_before(steps, i));
            &&& 0 <= row < rows.len()
            &&& rows[row].after_step == j
            &&& row == decisions_before(steps, j as nat) - decisions_before(steps, i)
        }),
    decreases steps.len() - i,
{
    let count = decisions_before(steps, i);
    never_fewer(steps, i, j as nat);
    assert(decisions_before(steps, i + 1) == count + (if left_a_decision(steps[i as int]) {
        1nat
    } else {
        0
    }));
    if i == j {
        0
    } else {
        let rest = every_finished_step_has_its_row(steps, decisions, i + 1, j);
        if left_a_decision(steps[i as int]) {
            let rows = decisions_from(steps, decisions, i, count);
            assert(rows[rest + 1] == decisions_from(steps, decisions, i + 1, count + 1)[rest]);
            rest + 1
        } else {
            rest
        }
    }
}

proof fn never_fewer(steps: Seq<StepView>, i: nat, j: nat)
    requires
        i <= j,
    ensures
        decisions_before(steps, i) <= decisions_before(steps, j),
    decreases j,
{
    if i < j {
        never_fewer(steps, i, (j - 1) as nat);
    }
}

} // verus!
