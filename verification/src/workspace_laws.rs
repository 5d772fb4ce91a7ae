//! What a harness finds in its workspace.
use crate::ir::{prefixed_lines, separated};
use crate::ir_laws::{each_under, lines_hold_every_text, parts_stand_within, stand_in_order, stands};
use crate::labels::Scope;
use crate::principal::CtxView;
use crate::register::{ArtefactRefView, RegisterView};
use crate::text::{decimal, decimal_injective};
use crate::workspace::{
    brief_name, briefed, harness_level, plan_text, task_text, workspace_of, Readings,
};
use vstd::prelude::*;

verus! {

/// What a harness is for is in its workspace: the task and the goal first, then every
/// constraint of the register on a line of its own under the heading of the constraints, in
/// the order of the register.
pub proof fn task_text_holds_every_constraint(reg: RegisterView) -> (at: int)
    ensures
        ({
            let s = task_text(reg);
            let head = "# Task "@ + reg.task_id + "\n\n## Goal\n"@ + reg.goal + "\n"@;
            let heading = "\n## Constraints\n"@;
            &&& stands(s, head, 0)
            &&& reg.constraints.len() == 0 ==> s == head
            &&& reg.constraints.len() > 0 ==> {
                &&& stands(s, heading, at)
                &&& stand_in_order(
                    s.skip(at + heading.len()),
                    each_under("- "@, reg.constraints),
                )
            }
        }),
{
    let s = task_text(reg);
    let head = "# Task "@ + reg.task_id + "\n\n## Goal\n"@ + reg.goal + "\n"@;
    let heading = "\n## Constraints\n"@;
    let cs = reg.constraints;
    assert(s.subrange(0, head.len() as int) =~= head);
    if cs.len() > 0 {
        let lines = prefixed_lines("- "@, cs);
        assert(s =~= head + heading + lines);
        assert(s.subrange(head.len() as int, (head.len() + heading.len()) as int) =~= heading);
        assert(s.skip((head.len() + heading.len()) as int) =~= lines);
        lines_hold_every_text("- "@, cs);
    } else {
        assert(s =~= head);
    }
    head.len() as int
}

/// One more constraint is one more line at the end of what the harness is for, under a
/// heading where it is the first.
pub proof fn one_more_constraint_for_a_harness(reg: RegisterView, c: Seq<char>)
    ensures
        task_text(RegisterView { constraints: reg.constraints.push(c), ..reg }) == task_text(reg) + (
        if reg.constraints.len() == 0 {
            "\n## Constraints\n"@
        } else {
            Seq::empty()
        }) + ("- "@ + c + "\n"@),
{
    let more = RegisterView { constraints: reg.constraints.push(c), ..reg };
    assert(more.constraints.drop_last() =~= reg.constraints);
    if reg.constraints.len() == 0 {
        assert(prefixed_lines("- "@, reg.constraints) =~= Seq::<char>::empty());
    }
    assert(task_text(more) =~= task_text(reg) + (if reg.constraints.len() == 0 {
        "\n## Constraints\n"@
    } else {
        Seq::empty()
    }) + ("- "@ + c + "\n"@));
}

proof fn separated_holds_every_part(parts: Seq<Seq<char>>, sep: Seq<char>)
    ensures
        stand_in_order(separated(parts, sep), parts),
    decreases parts.len(),
{
    let s = separated(parts, sep);
    if parts.len() == 0 {
        assert(crate::ir_laws::stand_at(s, parts, Seq::<int>::empty()));
    } else if parts.len() == 1 {
        assert(s.subrange(0, s.len() as int) =~= s);
        assert(crate::ir_laws::stand_at(s, parts, seq![0int]));
    } else {
        let front = parts.drop_last();
        let last = parts.last();
        separated_holds_every_part(front, sep);
        parts_stand_within(Seq::empty(), separated(front, sep), sep, front);
        assert(Seq::<char>::empty() + separated(front, sep) + sep =~= separated(front, sep) + sep);
        assert(last.subrange(0, last.len() as int) =~= last);
        assert(crate::ir_laws::stand_at(last, seq![last], seq![0int]));
        crate::ir_laws::parts_stand_together(separated(front, sep) + sep, front, last, seq![last]);
        assert(front + seq![last] =~= parts);
    }
}

/// The plan so far is in the workspace: every decision of the register, in its order, and a
/// line that says so where there is none yet.
pub proof fn plan_text_holds_every_decision(reg: RegisterView)
    ensures
        stand_in_order(plan_text(reg), reg.decisions),
        stands(plan_text(reg), "# Plan\n\n"@, 0),
        reg.decisions.len() == 0 ==> plan_text(reg) == "# Plan\n\n(no plan recorded yet)\n"@,
        reg.decisions.len() > 0 ==> plan_text(reg).len() == "# Plan\n\n"@.len() + separated(
            reg.decisions,
            "\n\n"@,
        ).len() + 1,
{
    reveal_strlit("\n");
    reveal_strlit("# Plan\n\n");
    reveal_strlit("# Plan\n\n(no plan recorded yet)\n");
    let s = plan_text(reg);
    assert(s.subrange(0, "# Plan\n\n"@.len() as int) =~= "# Plan\n\n"@);
    if reg.decisions.len() == 0 {
        assert(crate::ir_laws::stand_at(s, reg.decisions, Seq::<int>::empty()));
    } else {
        separated_holds_every_part(reg.decisions, "\n\n"@);
        parts_stand_within(
            "# Plan\n\n"@,
            separated(reg.decisions, "\n\n"@),
            "\n"@,
            reg.decisions,
        );
    }
}

/// One more decision is one more paragraph at the end of the plan.
pub proof fn one_more_decision_in_the_plan(reg: RegisterView, d: Seq<char>)
    requires
        reg.decisions.len() > 0,
    ensures
        plan_text(RegisterView { decisions: reg.decisions.push(d), ..reg }) == plan_text(reg) + ("\n"@
            + d + "\n"@),
{
    reveal_strlit("\n");
    reveal_strlit("\n\n");
    let more = RegisterView { decisions: reg.decisions.push(d), ..reg };
    assert(more.decisions.drop_last() =~= reg.decisions);
    assert("\n\n"@ =~= "\n"@ + "\n"@);
    assert(plan_text(more) =~= plan_text(reg) + ("\n"@ + d + "\n"@));
}

/// A workspace is made of its register: what the harness is for, the plan so far, and a brief
/// of the register's artefacts; where the register may not be read there is none.
pub proof fn workspace_is_of_its_register(host: Readings, ctx: CtxView, reg_id: Seq<char>)
    ensures
        ({
            let reg = (host.register)(ctx, reg_id);
            let w = workspace_of(host, ctx, reg_id);
            &&& w is Ok <==> reg is Ok
            &&& reg is Ok ==> {
                &&& w->Ok_0.task_md == task_text(reg->Ok_0)
                &&& w->Ok_0.plan_md == plan_text(reg->Ok_0)
                &&& (w->Ok_0.brief, w->Ok_0.fault) == briefed(
                    host,
                    ctx,
                    reg->Ok_0.task_id,
                    reg->Ok_0.artefacts,
                    reg->Ok_0.artefacts.len(),
                )
            }
        }),
{
}

/// How many of the first artefacts are in the brief.
pub open spec fn briefed_before(host: Readings, ctx: CtxView, artefacts: Seq<ArtefactRefView>, n: nat) -> nat
    decreases n,
{
    if n == 0 {
        0
    } else {
        briefed_before(host, ctx, artefacts, (n - 1) as nat) + (if (host.artefact)(
            ctx,
            artefacts[n - 1].hash,
        ) is Ok {
            1nat
        } else {
            0
        })
    }
}

/// Every artefact that may be read is in the brief, in the order of the register, with its
/// own bytes and under a name that says its place and its kind; the record of it names the
/// task, the artefact and its kind. A brief without a fault leaves out only what is above the
/// clearance.
pub proof fn brief_holds_every_artefact(
    host: Readings,
    ctx: CtxView,
    task_id: Seq<char>,
    artefacts: Seq<ArtefactRefView>,
    n: nat,
    i: int,
)
    requires
        n <= artefacts.len(),
        briefed(host, ctx, task_id, artefacts, n).1 is None,
        0 <= i < n,
    ensures
        ({
            let brief = briefed(host, ctx, task_id, artefacts, n).0;
            let a = artefacts[i];
            let at = briefed_before(host, ctx, artefacts, i as nat) as int;
            let read = (host.artefact)(ctx, a.hash);
            &&& brief.len() == briefed_before(host, ctx, artefacts, n)
            &&& read is Ok ==> {
                &&& at < brief.len()
                &&& brief[at].bytes == read->Ok_0
                &&& brief[at].name == brief_name(i as nat, a.kind)
                &&& brief[at].record.task_id == task_id
                &&& brief[at].record.artefact_hash == a.hash
                &&& brief[at].record.kind == a.kind
                &&& (host.label)(a.hash) is Some ==> brief[at].record.scope
                    == crate::wire::scope_text((host.label)(a.hash)->0.scope)
                &&& (host.label)(a.hash) is None ==> brief[at].record.scope == "unknown"@
            }
            &&& read is Err ==> read->Err_0 is I2
        }),
    decreases n,
{
    let before = briefed(host, ctx, task_id, artefacts, (n - 1) as nat);
    assert(before.1 is None);
    if n > 1 {
        if i < n - 1 {
            brief_holds_every_artefact(host, ctx, task_id, artefacts, (n - 1) as nat, i);
        } else {
            brief_holds_every_artefact(host, ctx, task_id, artefacts, (n - 1) as nat, 0);
        }
    }
}

/// What cannot be read for another reason than clearance ends the brief with a fault.
pub proof fn unreadable_artefact_ends_the_brief(
    host: Readings,
    ctx: CtxView,
    task_id: Seq<char>,
    artefacts: Seq<ArtefactRefView>,
    n: nat,
    i: int,
)
    requires
        0 <= i < n <= artefacts.len(),
        (host.artefact)(ctx, artefacts[i].hash) is Err,
        !((host.artefact)(ctx, artefacts[i].hash)->Err_0 is I2),
    ensures
        briefed(host, ctx, task_id, artefacts, n).1 is Some,
    decreases n,
{
    if i < n - 1 {
        unreadable_artefact_ends_the_brief(host, ctx, task_id, artefacts, (n - 1) as nat, i);
    }
}

/// What is above the clearance ends no brief: it is left out, and every other artefact follows.
pub proof fn brief_passes_over_what_is_above(
    host: Readings,
    ctx: CtxView,
    task_id: Seq<char>,
    artefacts: Seq<ArtefactRefView>,
    n: nat,
)
    requires
        n <= artefacts.len(),
        forall|i: int|
            0 <= i < n && (host.artefact)(ctx, (#[trigger] artefacts[i]).hash) is Err ==> (
            host.artefact)(ctx, artefacts[i].hash)->Err_0 is I2,
    ensures
        briefed(host, ctx, task_id, artefacts, n).1 is None,
    decreases n,
{
    if n > 0 {
        brief_passes_over_what_is_above(host, ctx, task_id, artefacts, (n - 1) as nat);
        assert((host.artefact)(ctx, artefacts[n - 1].hash) is Err ==> (host.artefact)(
            ctx,
            artefacts[n - 1].hash,
        )->Err_0 is I2);
    }
}

/// The place of an artefact as its file's name says it.
spec fn place_said(i: nat) -> Seq<char> {
    if i < 10 {
        "0"@ + decimal(i)
    } else {
        decimal(i)
    }
}

proof fn place_is_digits(i: nat)
    ensures
        place_said(i).len() >= 2,
        forall|x: int| 0 <= x < place_said(i).len() ==> '0' <= #[trigger] place_said(i)[x] <= '9',
        i >= 10 ==> place_said(i)[0] != '0',
{
    reveal_strlit("0");
    reveal_with_fuel(decimal, 2);
    crate::keeping::number_of_decimal(i);
    if i < 10 {
        assert(place_said(i) =~= seq!['0', decimal(i)[0]]);
    }
}

/// Two artefacts of one register are two files of its brief, whatever their kinds.
pub proof fn brief_names_differ(i: nat, a: Seq<char>, j: nat, b: Seq<char>)
    requires
        i != j,
    ensures
        brief_name(i, a) != brief_name(j, b),
{
    reveal_strlit("0");
    reveal_strlit("-");
    let (x, y) = (brief_name(i, a), brief_name(j, b));
    let (dx, dy) = (place_said(i), place_said(j));
    place_is_digits(i);
    place_is_digits(j);
    if x == y {
        if dx.len() < dy.len() {
            assert(x[dx.len() as int] == '-');
            assert(y[dx.len() as int] == dy[dx.len() as int]);
        }
        if dy.len() < dx.len() {
            assert(y[dy.len() as int] == '-');
            assert(x[dy.len() as int] == dx[dy.len() as int]);
        }
        assert(dx =~= x.take(dx.len() as int));
        assert(dy =~= y.take(dx.len() as int));
        if i < 10 && j < 10 {
            assert(decimal(i) =~= dx.skip(1));
            assert(decimal(j) =~= dy.skip(1));
            decimal_injective(i, j);
        } else if i < 10 || j < 10 {
            assert(dx[0] == dy[0]);
        } else {
            decimal_injective(i, j);
        }
    }
}

/// A harness sees what is the business's own and no further: nothing personal, nothing held
/// out, and nothing of third parties.
pub proof fn harness_sees_the_business_alone(label: crate::labels::Label)
    ensures
        crate::labels::flows(label, harness_level()) <==> {
            &&& label.data_class == crate::labels::DataClass::Own
            &&& label.scope == Scope::Public || label.scope == Scope::Vertical || label.scope
                == Scope::Business
        },
{
}

} // verus!
