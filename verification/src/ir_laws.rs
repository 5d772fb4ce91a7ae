//! What a prompt holds of its register, and what an answer leaves in it.
use crate::ir::{
    constraint_lines, evidence_lines, lowered, prefixed_lines, raised, separated,
};
use crate::labels::Origin;
use crate::register::{EvidenceView, RegisterView};
use crate::text::trimmed;
use vstd::prelude::*;

verus! {

/// Whether `part` stands in `s` at this place.
pub open spec fn stands(s: Seq<char>, part: Seq<char>, at: int) -> bool {
    &&& 0 <= at
    &&& at + part.len() <= s.len()
    &&& s.subrange(at, at + part.len()) == part
}

/// Whether the parts stand in `s` at these places, one after the other.
pub open spec fn stand_at(s: Seq<char>, parts: Seq<Seq<char>>, places: Seq<int>) -> bool {
    &&& places.len() == parts.len()
    &&& forall|i: int| 0 <= i < parts.len() ==> stands(s, #[trigger] parts[i], places[i])
    &&& forall|i: int, j: int|
        #![trigger places[i], places[j]]
        0 <= i < j < parts.len() ==> places[i] + parts[i].len() <= places[j]
}

/// Whether the parts stand in `s`, one after the other.
pub open spec fn stand_in_order(s: Seq<char>, parts: Seq<Seq<char>>) -> bool {
    exists|places: Seq<int>| stand_at(s, parts, places)
}

/// Parts that stand in a text stand in every text that holds it.
pub proof fn parts_stand_within(a: Seq<char>, s: Seq<char>, b: Seq<char>, parts: Seq<Seq<char>>)
    requires
        stand_in_order(s, parts),
    ensures
        stand_in_order(a + s + b, parts),
{
    let places = choose|places: Seq<int>| stand_at(s, parts, places);
    let moved = Seq::new(places.len(), |i: int| places[i] + a.len());
    let whole = a + s + b;
    assert forall|i: int| 0 <= i < parts.len() implies stands(whole, #[trigger] parts[i], moved[i]) by {
        assert(stands(s, parts[i], places[i]));
        assert(whole.subrange(moved[i], moved[i] + parts[i].len()) =~= s.subrange(
            places[i],
            places[i] + parts[i].len(),
        ));
    }
    assert forall|i: int, j: int|
        #![trigger moved[i], moved[j]]
        0 <= i < j < parts.len() implies moved[i] + parts[i].len() <= moved[j] by {
        assert(places[i] + parts[i].len() <= places[j]);
    }
    assert(stand_at(whole, parts, moved));
}

/// What stands in one text and what stands in the next stand in both together.
pub proof fn parts_stand_together(
    s: Seq<char>,
    ps: Seq<Seq<char>>,
    t: Seq<char>,
    qs: Seq<Seq<char>>,
)
    requires
        stand_in_order(s, ps),
        stand_in_order(t, qs),
    ensures
        stand_in_order(s + t, ps + qs),
{
    let here = choose|places: Seq<int>| stand_at(s, ps, places);
    let there = choose|places: Seq<int>| stand_at(t, qs, places);
    let whole = s + t;
    let parts = ps + qs;
    let places = Seq::new(
        parts.len(),
        |i: int|
            if i < ps.len() {
                here[i]
            } else {
                there[i - ps.len()] + s.len()
            },
    );
    assert forall|i: int| 0 <= i < parts.len() implies stands(whole, #[trigger] parts[i], places[i]) by {
        if i < ps.len() {
            assert(stands(s, ps[i], here[i]));
            assert(whole.subrange(here[i], here[i] + ps[i].len()) =~= s.subrange(
                here[i],
                here[i] + ps[i].len(),
            ));
        } else {
            let j = i - ps.len();
            assert(stands(t, qs[j], there[j]));
            assert(whole.subrange(places[i], places[i] + qs[j].len()) =~= t.subrange(
                there[j],
                there[j] + qs[j].len(),
            ));
        }
    }
    assert forall|i: int, j: int|
        #![trigger places[i], places[j]]
        0 <= i < j < parts.len() implies places[i] + parts[i].len() <= places[j] by {
        if j < ps.len() {
            assert(here[i] + ps[i].len() <= here[j]);
        } else if i >= ps.len() {
            assert(there[i - ps.len()] + qs[i - ps.len()].len() <= there[j - ps.len()]);
        } else {
            assert(stands(s, ps[i], here[i]));
            assert(stands(t, qs[j - ps.len()], there[j - ps.len()]));
        }
    }
    assert(stand_at(whole, parts, places));
}

/// A text stands in itself.
pub proof fn one_part_stands(s: Seq<char>)
    ensures
        stand_in_order(s, seq![s]),
{
    assert(s.subrange(0, s.len() as int) =~= s);
    assert(stand_at(s, seq![s], seq![0int]));
}

/// No parts stand in every text.
pub proof fn no_part_stands(s: Seq<char>)
    ensures
        stand_in_order(s, Seq::<Seq<char>>::empty()),
{
    assert(stand_at(s, Seq::<Seq<char>>::empty(), Seq::<int>::empty()));
}

/// A line for each text, under one heading.
pub open spec fn each_under(heading: Seq<char>, texts: Seq<Seq<char>>) -> Seq<Seq<char>> {
    Seq::new(texts.len(), |i: int| heading + texts[i] + "\n"@)
}

/// Every text of a list stands in its lines, after the prefix and in order.
pub proof fn lines_hold_every_text(prefix: Seq<char>, texts: Seq<Seq<char>>)
    ensures
        stand_in_order(prefixed_lines(prefix, texts), each_under(prefix, texts)),
    decreases texts.len(),
{
    if texts.len() == 0 {
        no_part_stands(prefixed_lines(prefix, texts));
        assert(each_under(prefix, texts) =~= Seq::<Seq<char>>::empty());
    } else {
        let front = texts.drop_last();
        let line = prefix + texts.last() + "\n"@;
        lines_hold_every_text(prefix, front);
        one_part_stands(line);
        parts_stand_together(prefixed_lines(prefix, front), each_under(prefix, front), line, seq![line]);
        assert(each_under(prefix, front) + seq![line] =~= each_under(prefix, texts));
    }
}

/// How a prompt has a piece of evidence: under where it came from.
pub open spec fn evidence_line(e: EvidenceView) -> Seq<char> {
    (match e.origin {
        Origin::OwnerAuthored => "EVIDENCE (OwnerAuthored): "@,
        Origin::Web => "EVIDENCE (Web): "@,
    }) + e.content + "\n"@
}

/// How a prompt has its evidence.
pub open spec fn each_evidence(es: Seq<EvidenceView>) -> Seq<Seq<char>> {
    Seq::new(es.len(), |i: int| evidence_line(es[i]))
}

proof fn one_more_evidence(es: Seq<EvidenceView>, e: EvidenceView)
    ensures
        evidence_lines(es.push(e)) == evidence_lines(es) + evidence_line(e),
{
    assert(es.push(e).drop_last() =~= es);
    reveal_strlit("EVIDENCE (");
    reveal_strlit("): ");
    reveal_strlit("OwnerAuthored");
    reveal_strlit("Web");
    reveal_strlit("EVIDENCE (OwnerAuthored): ");
    reveal_strlit("EVIDENCE (Web): ");
    assert("EVIDENCE ("@ + "OwnerAuthored"@ + "): "@ =~= "EVIDENCE (OwnerAuthored): "@);
    assert("EVIDENCE ("@ + "Web"@ + "): "@ =~= "EVIDENCE (Web): "@);
    assert(evidence_lines(es.push(e)) =~= evidence_lines(es) + evidence_line(e));
}

proof fn evidence_holds_every_piece(es: Seq<EvidenceView>)
    ensures
        stand_in_order(evidence_lines(es), each_evidence(es)),
    decreases es.len(),
{
    if es.len() == 0 {
        no_part_stands(evidence_lines(es));
        assert(each_evidence(es) =~= Seq::<Seq<char>>::empty());
    } else {
        let front = es.drop_last();
        let line = evidence_line(es.last());
        evidence_holds_every_piece(front);
        one_more_evidence(front, es.last());
        assert(front.push(es.last()) =~= es);
        one_part_stands(line);
        parts_stand_together(evidence_lines(front), each_evidence(front), line, seq![line]);
        assert(each_evidence(front) + seq![line] =~= each_evidence(es));
    }
}

/// Texts put together with a line break and a bullet between them are a bullet each.
proof fn bullets_are_lines(cs: Seq<Seq<char>>)
    requires
        cs.len() > 0,
    ensures
        "- "@ + separated(cs, "\n- "@) + "\n"@ == prefixed_lines("- "@, cs),
    decreases cs.len(),
{
    reveal_strlit("\n");
    reveal_strlit("- ");
    reveal_strlit("\n- ");
    assert("\n- "@ =~= "\n"@ + "- "@);
    let front = cs.drop_last();
    if cs.len() == 1 {
        assert(front =~= Seq::<Seq<char>>::empty());
        assert(prefixed_lines("- "@, front) =~= Seq::<char>::empty());
        assert("- "@ + separated(cs, "\n- "@) + "\n"@ =~= prefixed_lines("- "@, cs));
    } else {
        bullets_are_lines(front);
        assert("- "@ + separated(cs, "\n- "@) + "\n"@ =~= ("- "@ + separated(front, "\n- "@) + "\n"@)
            + ("- "@ + cs.last() + "\n"@));
    }
}

proof fn constraints_under_their_heading(cs: Seq<Seq<char>>)
    requires
        cs.len() > 0,
    ensures
        constraint_lines(cs) == "CONSTRAINTS:\n"@ + prefixed_lines("- "@, cs),
{
    reveal_strlit("CONSTRAINTS:\n");
    reveal_strlit("CONSTRAINTS:\n- ");
    reveal_strlit("- ");
    bullets_are_lines(cs);
    assert("CONSTRAINTS:\n- "@ =~= "CONSTRAINTS:\n"@ + "- "@);
    assert(constraint_lines(cs) =~= "CONSTRAINTS:\n"@ + ("- "@ + separated(cs, "\n- "@) + "\n"@));
}

/// The lines that a prompt for this role has of its register: the role and the goal, then
/// the constraints under their heading, the evidence, the decisions and the open questions.
pub open spec fn parts_of(reg: RegisterView, role: Seq<char>) -> Seq<Seq<char>> {
    seq!["ROLE: "@ + role + "\n"@, "GOAL: "@ + reg.goal + "\n"@] + (if reg.constraints.len() == 0 {
        Seq::empty()
    } else {
        seq!["CONSTRAINTS:\n"@]
    }) + each_under("- "@, reg.constraints) + each_evidence(reg.evidence) + each_under(
        "DECISION: "@,
        reg.decisions,
    ) + each_under("OPEN: "@, reg.open_questions)
}

/// What a prompt begins with: the role, the goal and the constraints.
spec fn head_of(reg: RegisterView, role: Seq<char>) -> Seq<char> {
    "ROLE: "@ + role + "\nGOAL: "@ + reg.goal + "\n"@ + constraint_lines(reg.constraints)
}

spec fn head_parts(reg: RegisterView, role: Seq<char>) -> Seq<Seq<char>> {
    seq!["ROLE: "@ + role + "\n"@, "GOAL: "@ + reg.goal + "\n"@] + (if reg.constraints.len() == 0 {
        Seq::empty()
    } else {
        seq!["CONSTRAINTS:\n"@]
    }) + each_under("- "@, reg.constraints)
}

proof fn head_holds_its_parts(reg: RegisterView, role: Seq<char>)
    ensures
        stand_in_order(head_of(reg, role), head_parts(reg, role)),
{
    reveal_strlit("\n");
    reveal_strlit("GOAL: ");
    reveal_strlit("\nGOAL: ");
    assert("\nGOAL: "@ =~= "\n"@ + "GOAL: "@);
    let first = "ROLE: "@ + role + "\n"@;
    let goal = "GOAL: "@ + reg.goal + "\n"@;
    one_part_stands(first);
    one_part_stands(goal);
    parts_stand_together(first, seq![first], goal, seq![goal]);
    let cs = reg.constraints;
    let text = first + goal;
    let parts = seq![first] + seq![goal];
    if cs.len() > 0 {
        let heading = "CONSTRAINTS:\n"@;
        constraints_under_their_heading(cs);
        one_part_stands(heading);
        parts_stand_together(text, parts, heading, seq![heading]);
        lines_hold_every_text("- "@, cs);
        parts_stand_together(
            text + heading,
            parts + seq![heading],
            prefixed_lines("- "@, cs),
            each_under("- "@, cs),
        );
        assert(text + heading + prefixed_lines("- "@, cs) =~= head_of(reg, role));
        assert(parts + seq![heading] + each_under("- "@, cs) =~= head_parts(reg, role));
    } else {
        assert(text =~= head_of(reg, role));
        assert(parts =~= head_parts(reg, role));
    }
}

/// Every part of a register is in its prompt: the role and the goal, each constraint, each
/// piece of evidence, each decision and each open question, each on its own line under its
/// own heading, in the order of the register.
pub proof fn prompt_holds_every_part(reg: RegisterView, role: Seq<char>)
    ensures
        stand_in_order(lowered(reg, role), parts_of(reg, role)),
{
    let head = head_of(reg, role);
    let evidence = evidence_lines(reg.evidence);
    let decisions = prefixed_lines("DECISION: "@, reg.decisions);
    let open = prefixed_lines("OPEN: "@, reg.open_questions);
    let (ps, es) = (head_parts(reg, role), each_evidence(reg.evidence));
    let ds = each_under("DECISION: "@, reg.decisions);
    let qs = each_under("OPEN: "@, reg.open_questions);
    head_holds_its_parts(reg, role);
    evidence_holds_every_piece(reg.evidence);
    parts_stand_together(head, ps, evidence, es);
    lines_hold_every_text("DECISION: "@, reg.decisions);
    parts_stand_together(head + evidence, ps + es, decisions, ds);
    lines_hold_every_text("OPEN: "@, reg.open_questions);
    parts_stand_together(head + evidence + decisions, ps + es + ds, open, qs);
    assert(lowered(reg, role) == head + evidence + decisions + open);
    assert(parts_of(reg, role) == ps + es + ds + qs);
}

/// One more open question is one more line at the end of the prompt, and nothing else.
pub proof fn one_more_question_is_one_more_line(reg: RegisterView, role: Seq<char>, q: Seq<char>)
    ensures
        lowered(RegisterView { open_questions: reg.open_questions.push(q), ..reg }, role)
            == lowered(reg, role) + ("OPEN: "@ + q + "\n"@),
{
    let more = RegisterView { open_questions: reg.open_questions.push(q), ..reg };
    assert(more.open_questions.drop_last() =~= reg.open_questions);
    assert(lowered(more, role) =~= lowered(reg, role) + ("OPEN: "@ + q + "\n"@));
}

/// On a register without open questions one more decision is one more line at the end of
/// the prompt, and nothing else.
pub proof fn one_more_decision_is_one_more_line(reg: RegisterView, role: Seq<char>, d: Seq<char>)
    requires
        reg.open_questions.len() == 0,
    ensures
        lowered(RegisterView { decisions: reg.decisions.push(d), ..reg }, role) == lowered(reg, role)
            + ("DECISION: "@ + d + "\n"@),
{
    let more = RegisterView { decisions: reg.decisions.push(d), ..reg };
    assert(more.decisions.drop_last() =~= reg.decisions);
    assert(prefixed_lines("OPEN: "@, reg.open_questions) =~= Seq::<char>::empty());
    assert(lowered(more, role) =~= lowered(reg, role) + ("DECISION: "@ + d + "\n"@));
}

/// On a register with neither decisions nor open questions one more piece of evidence is
/// one more line at the end of the prompt, and nothing else.
pub proof fn one_more_evidence_is_one_more_line(reg: RegisterView, role: Seq<char>, e: EvidenceView)
    requires
        reg.decisions.len() == 0,
        reg.open_questions.len() == 0,
    ensures
        lowered(RegisterView { evidence: reg.evidence.push(e), ..reg }, role) == lowered(reg, role)
            + evidence_line(e),
{
    one_more_evidence(reg.evidence, e);
    let more = RegisterView { evidence: reg.evidence.push(e), ..reg };
    assert(prefixed_lines("OPEN: "@, reg.open_questions) =~= Seq::<char>::empty());
    assert(prefixed_lines("DECISION: "@, reg.decisions) =~= Seq::<char>::empty());
    assert(lowered(more, role) =~= lowered(reg, role) + evidence_line(e));
}

/// On a register with nothing but constraints one more is one more bullet at the end of the
/// prompt, under a heading where it is the first; and one with nothing but a goal is the
/// role and the goal.
pub proof fn one_more_constraint_is_one_more_bullet(reg: RegisterView, role: Seq<char>, c: Seq<char>)
    requires
        reg.evidence.len() == 0,
        reg.decisions.len() == 0,
        reg.open_questions.len() == 0,
    ensures
        lowered(RegisterView { constraints: reg.constraints.push(c), ..reg }, role) == lowered(
            reg,
            role,
        ) + (if reg.constraints.len() == 0 {
            "CONSTRAINTS:\n"@
        } else {
            Seq::empty()
        }) + ("- "@ + c + "\n"@),
        reg.constraints.len() == 0 ==> lowered(reg, role) == "ROLE: "@ + role + "\nGOAL: "@
            + reg.goal + "\n"@,
{
    let cs = reg.constraints.push(c);
    let more = RegisterView { constraints: cs, ..reg };
    assert(cs.drop_last() =~= reg.constraints);
    assert(prefixed_lines("OPEN: "@, reg.open_questions) =~= Seq::<char>::empty());
    assert(prefixed_lines("DECISION: "@, reg.decisions) =~= Seq::<char>::empty());
    assert(evidence_lines(reg.evidence) =~= Seq::<char>::empty());
    constraints_under_their_heading(cs);
    let head = "ROLE: "@ + role + "\nGOAL: "@ + reg.goal + "\n"@;
    if reg.constraints.len() > 0 {
        constraints_under_their_heading(reg.constraints);
    } else {
        assert(prefixed_lines("- "@, reg.constraints) =~= Seq::<char>::empty());
        assert(lowered(reg, role) =~= head);
    }
    assert(lowered(more, role) =~= lowered(reg, role) + (if reg.constraints.len() == 0 {
        "CONSTRAINTS:\n"@
    } else {
        Seq::empty()
    }) + ("- "@ + c + "\n"@));
}

/// Whether a text is one line.
pub open spec fn one_line(s: Seq<char>) -> bool {
    forall|i: int| 0 <= i < s.len() ==> #[trigger] s[i] != '\n'
}

/// Lines under one heading are those of one list.
proof fn lines_are_of_one_list(prefix: Seq<char>, a: Seq<Seq<char>>, b: Seq<Seq<char>>)
    requires
        one_line(prefix),
        prefix.len() > 0,
        forall|i: int| 0 <= i < a.len() ==> one_line(#[trigger] a[i]),
        forall|i: int| 0 <= i < b.len() ==> one_line(#[trigger] b[i]),
        prefixed_lines(prefix, a) == prefixed_lines(prefix, b),
    ensures
        a == b,
    decreases a.len(),
{
    reveal_strlit("\n");
    let whole = prefixed_lines(prefix, a);
    if a.len() == 0 || b.len() == 0 {
        if a.len() > 0 {
            assert(whole.len() > 0);
        }
        if b.len() > 0 {
            assert(whole.len() > 0);
        }
        assert(a =~= b);
    } else {
        let (fa, fb) = (a.drop_last(), b.drop_last());
        let (pa, pb) = (prefixed_lines(prefix, fa), prefixed_lines(prefix, fb));
        let (la, lb) = (prefix + a.last() + "\n"@, prefix + b.last() + "\n"@);
        assert(whole == pa + la && whole == pb + lb);
        ends_in_a_break(prefix, fa);
        ends_in_a_break(prefix, fb);
        assert(a.last() == a[a.len() - 1] && b.last() == b[b.len() - 1]);
        assert forall|i: int| 0 <= i < la.len() - 1 implies #[trigger] la[i] != '\n' by {
            if i < prefix.len() {
                assert(la[i] == prefix[i]);
            } else {
                assert(la[i] == a.last()[i - prefix.len()]);
            }
        }
        assert forall|i: int| 0 <= i < lb.len() - 1 implies #[trigger] lb[i] != '\n' by {
            if i < prefix.len() {
                assert(lb[i] == prefix[i]);
            } else {
                assert(lb[i] == b.last()[i - prefix.len()]);
            }
        }
        assert(lb.len() > 0 && la.len() > 0);
        assert((pa + la).len() == (pb + lb).len());
        assert((pa + la).len() == pa.len() + la.len() && (pb + lb).len() == pb.len() + lb.len());
        if pa.len() < pb.len() {
            let x = pb.len() - 1;
            assert((pb + lb)[x] == pb[x]);
            assert((pa + la)[x] == la[x - pa.len()]);
            assert(x - pa.len() < la.len() - 1);
            assert(false);
        }
        if pb.len() < pa.len() {
            let x = pa.len() - 1;
            assert((pa + la)[x] == pa[x]);
            assert((pb + lb)[x] == lb[x - pb.len()]);
            assert(x - pb.len() < lb.len() - 1);
            assert(false);
        }
        assert(pa =~= whole.take(pa.len() as int));
        assert(pb =~= whole.take(pa.len() as int));
        assert(la =~= whole.skip(pa.len() as int));
        assert(lb =~= whole.skip(pa.len() as int));
        assert(a.last() =~= la.subrange(prefix.len() as int, la.len() - 1));
        assert(b.last() =~= lb.subrange(prefix.len() as int, lb.len() - 1));
        lines_are_of_one_list(prefix, fa, fb);
        assert(a =~= fa.push(a.last()));
        assert(b =~= fb.push(b.last()));
    }
}

proof fn ends_in_a_break(prefix: Seq<char>, a: Seq<Seq<char>>)
    ensures
        prefixed_lines(prefix, a).len() > 0 ==> prefixed_lines(prefix, a).last() == '\n',
{
    reveal_strlit("\n");
    if a.len() > 0 {
        assert(prefixed_lines(prefix, a).last() == "\n"@[0]);
    }
}

/// Registers that differ in their open questions alone, each of one line, have different
/// prompts: an arch sees every question, and which they are.
pub proof fn prompt_tells_questions_apart(
    reg: RegisterView,
    role: Seq<char>,
    a: Seq<Seq<char>>,
    b: Seq<Seq<char>>,
)
    requires
        forall|i: int| 0 <= i < a.len() ==> one_line(#[trigger] a[i]),
        forall|i: int| 0 <= i < b.len() ==> one_line(#[trigger] b[i]),
        lowered(RegisterView { open_questions: a, ..reg }, role) == lowered(
            RegisterView { open_questions: b, ..reg },
            role,
        ),
    ensures
        a == b,
{
    reveal_strlit("OPEN: ");
    let bare = RegisterView { open_questions: Seq::empty(), ..reg };
    let head = lowered(bare, role);
    assert(prefixed_lines("OPEN: "@, bare.open_questions) =~= Seq::<char>::empty());
    let (p, q) = (prefixed_lines("OPEN: "@, a), prefixed_lines("OPEN: "@, b));
    let pa = lowered(RegisterView { open_questions: a, ..reg }, role);
    let pb = lowered(RegisterView { open_questions: b, ..reg }, role);
    assert(pa =~= head + p);
    assert(pb =~= head + q);
    assert(p =~= pa.skip(head.len() as int));
    assert(q =~= pb.skip(head.len() as int));
    lines_are_of_one_list("OPEN: "@, a, b);
}

/// Registers that differ in their decisions alone, each of one line, have different
/// prompts.
pub proof fn prompt_tells_decisions_apart(
    reg: RegisterView,
    role: Seq<char>,
    a: Seq<Seq<char>>,
    b: Seq<Seq<char>>,
)
    requires
        forall|i: int| 0 <= i < a.len() ==> one_line(#[trigger] a[i]),
        forall|i: int| 0 <= i < b.len() ==> one_line(#[trigger] b[i]),
        lowered(RegisterView { decisions: a, ..reg }, role) == lowered(
            RegisterView { decisions: b, ..reg },
            role,
        ),
    ensures
        a == b,
{
    reveal_strlit("DECISION: ");
    let open = prefixed_lines("OPEN: "@, reg.open_questions);
    let (p, q) = (prefixed_lines("DECISION: "@, a), prefixed_lines("DECISION: "@, b));
    let head = "ROLE: "@ + role + "\nGOAL: "@ + reg.goal + "\n"@ + constraint_lines(reg.constraints)
        + evidence_lines(reg.evidence);
    let pa = lowered(RegisterView { decisions: a, ..reg }, role);
    let pb = lowered(RegisterView { decisions: b, ..reg }, role);
    assert(pa =~= head + p + open);
    assert(pb =~= head + q + open);
    assert(p.len() == q.len());
    assert(p =~= pa.subrange(head.len() as int, (head.len() + p.len()) as int));
    assert(q =~= pb.subrange(head.len() as int, (head.len() + p.len()) as int));
    lines_are_of_one_list("DECISION: "@, a, b);
}

/// An answer leaves one new entry on the register, the last: a judgement among the open
/// questions, a plan or a draft among the decisions. It says the role and the answer, and
/// everything that was there before stays.
pub proof fn answer_is_the_newest_entry(reg: RegisterView, role: Seq<char>, output: Seq<char>)
    ensures
        ({
            let after = raised(reg, role, output);
            let said = role + ": "@ + trimmed(output);
            let grown = if role == "judge"@ {
                after.open_questions
            } else {
                after.decisions
            };
            let was = if role == "judge"@ {
                reg.open_questions
            } else {
                reg.decisions
            };
            &&& grown.len() == was.len() + 1
            &&& grown.last() == said
            &&& grown.drop_last() == was
            &&& role == "judge"@ ==> after.decisions == reg.decisions
            &&& role != "judge"@ ==> after.open_questions == reg.open_questions
            &&& after.id == reg.id
            &&& after.task_id == reg.task_id
            &&& after.label == reg.label
            &&& after.goal == reg.goal
            &&& after.constraints == reg.constraints
            &&& after.evidence == reg.evidence
            &&& after.artefacts == reg.artefacts
        }),
{
    let said = role + ": "@ + trimmed(output);
    assert(reg.decisions.push(said).drop_last() =~= reg.decisions);
    assert(reg.open_questions.push(said).drop_last() =~= reg.open_questions);
}

} // verus!
