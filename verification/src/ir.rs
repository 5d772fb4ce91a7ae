//! From a register to a prompt, and from an answer back into the register.
use crate::labels::Origin;
use crate::model::all;
use crate::register::{EvidenceView, Register, RegisterView};
use crate::text::{cat3, cat5, same, trim_text, trimmed};
use vstd::prelude::*;
use vstd::string::*;

verus! {

/// Texts put together with `sep` between them.
pub open spec fn separated(parts: Seq<Seq<char>>, sep: Seq<char>) -> Seq<char>
    decreases parts.len(),
{
    if parts.len() == 0 {
        Seq::empty()
    } else if parts.len() == 1 {
        parts[0]
    } else {
        separated(parts.drop_last(), sep) + sep + parts.last()
    }
}

/// Texts put together with `sep` between them.
pub fn join(parts: &Vec<String>, sep: &str) -> (r: String)
    ensures
        r@ == separated(all(parts@), sep@),
{
    let ghost views = all(parts@);
    let mut r = String::new();
    let mut i: usize = 0;
    assert(r@ =~= separated(views.take(0), sep@));
    while i < parts.len()
        invariant
            i <= parts@.len(),
            views == all(parts@),
            r@ == separated(views.take(i as int), sep@),
        decreases parts@.len() - i,
    {
        assert(views.take(i + 1).drop_last() =~= views.take(i as int));
        assert(views.take(i + 1).last() == parts@[i as int]@);
        if i == 0 {
            r = parts[0].clone();
        } else {
            r.append(sep);
            r.append(parts[i].as_str());
        }
        i += 1;
    }
    assert(views.take(i as int) =~= views);
    r
}

/// One line for each text: the text after `prefix`.
pub open spec fn prefixed_lines(prefix: Seq<char>, parts: Seq<Seq<char>>) -> Seq<char>
    decreases parts.len(),
{
    if parts.len() == 0 {
        Seq::empty()
    } else {
        prefixed_lines(prefix, parts.drop_last()) + (prefix + parts.last() + "\n"@)
    }
}

fn append_lines(s: &mut String, prefix: &str, parts: &Vec<String>)
    ensures
        final(s)@ == old(s)@ + prefixed_lines(prefix@, all(parts@)),
{
    let ghost views = all(parts@);
    let ghost start = s@;
    let mut i: usize = 0;
    assert(s@ =~= start + prefixed_lines(prefix@, views.take(0)));
    while i < parts.len()
        invariant
            i <= parts@.len(),
            views == all(parts@),
            s@ == start + prefixed_lines(prefix@, views.take(i as int)),
        decreases parts@.len() - i,
    {
        assert(views.take(i + 1).drop_last() =~= views.take(i as int));
        assert(views.take(i + 1).last() == parts@[i as int]@);
        let line = cat3(prefix, parts[i].as_str(), "\n");
        s.append(line.as_str());
        i += 1;
        assert(s@ =~= start + prefixed_lines(prefix@, views.take(i as int)));
    }
    assert(views.take(i as int) =~= views);
}

/// An origin as a prompt names it.
pub open spec fn origin_text(o: Origin) -> Seq<char> {
    match o {
        Origin::OwnerAuthored => "OwnerAuthored"@,
        Origin::Web => "Web"@,
    }
}

fn origin_name(o: Origin) -> (r: &'static str)
    ensures
        r@ == origin_text(o),
{
    match o {
        Origin::OwnerAuthored => "OwnerAuthored",
        Origin::Web => "Web",
    }
}

/// One line for each piece of evidence, with its origin.
pub open spec fn evidence_lines(es: Seq<EvidenceView>) -> Seq<char>
    decreases es.len(),
{
    if es.len() == 0 {
        Seq::empty()
    } else {
        let e = es.last();
        evidence_lines(es.drop_last()) + ("EVIDENCE ("@ + origin_text(e.origin) + "): "@ + e.content
            + "\n"@)
    }
}

/// The heading and bullets of the constraints, where there are any.
pub open spec fn constraint_lines(cs: Seq<Seq<char>>) -> Seq<char> {
    if cs.len() == 0 {
        Seq::empty()
    } else {
        "CONSTRAINTS:\n- "@ + separated(cs, "\n- "@) + "\n"@
    }
}

/// The prompt that a register becomes for a role: the role and the goal, then
/// the constraints, the evidence, the decisions and the open questions.
pub open spec fn lowered(reg: RegisterView, role: Seq<char>) -> Seq<char> {
    "ROLE: "@ + role + "\nGOAL: "@ + reg.goal + "\n"@ + constraint_lines(reg.constraints)
        + evidence_lines(reg.evidence) + prefixed_lines("DECISION: "@, reg.decisions)
        + prefixed_lines("OPEN: "@, reg.open_questions)
}

/// Lower a register into a prompt for `role`. The role line comes first, so an
/// adapter can tell what it is asked for.
pub fn lower(reg: &Register, role: &str) -> (r: String)
    ensures
        r@ == lowered(reg@, role@),
{
    let mut s = cat5("ROLE: ", role, "\nGOAL: ", reg.goal.as_str(), "\n");
    if reg.constraints.len() > 0 {
        let bullets = join(&reg.constraints, "\n- ");
        let block = cat3("CONSTRAINTS:\n- ", bullets.as_str(), "\n");
        s.append(block.as_str());
    }
    assert(all(reg.constraints@).len() == reg.constraints@.len());
    let ghost head = "ROLE: "@ + role@ + "\nGOAL: "@ + reg.goal@ + "\n"@ + constraint_lines(
        reg@.constraints,
    );
    assert(s@ =~= head);
    let ghost views = all(reg.evidence@);
    let mut i: usize = 0;
    assert(s@ =~= head + evidence_lines(views.take(0)));
    while i < reg.evidence.len()
        invariant
            i <= reg.evidence@.len(),
            views == all(reg.evidence@),
            s@ == head + evidence_lines(views.take(i as int)),
        decreases reg.evidence@.len() - i,
    {
        assert(views.take(i + 1).drop_last() =~= views.take(i as int));
        assert(views.take(i + 1).last() == reg.evidence@[i as int]@);
        let e = &reg.evidence[i];
        let line = cat5("EVIDENCE (", origin_name(e.origin), "): ", e.content.as_str(), "\n");
        s.append(line.as_str());
        i += 1;
        assert(s@ =~= head + evidence_lines(views.take(i as int)));
    }
    assert(views.take(i as int) =~= views);
    append_lines(&mut s, "DECISION: ", &reg.decisions);
    append_lines(&mut s, "OPEN: ", &reg.open_questions);
    s
}

/// A register after an answer for `role` was raised into it: a judgement is an
/// open question, and anything else a decision.
pub open spec fn raised(reg: RegisterView, role: Seq<char>, output: Seq<char>) -> RegisterView {
    let said = role + ": "@ + trimmed(output);
    if role == "judge"@ {
        RegisterView { open_questions: reg.open_questions.push(said), ..reg }
    } else {
        RegisterView { decisions: reg.decisions.push(said), ..reg }
    }
}

/// Raise an answer into the register, under the role it answers for.
pub fn raise(reg: &mut Register, role: &str, output: &str)
    ensures
        final(reg)@ == raised(old(reg)@, role@, output@),
{
    let answer = trim_text(output);
    let said = cat3(role, ": ", answer.as_str());
    let ghost text = said@;
    if same(role, "judge") {
        let ghost before = all(reg.open_questions@);
        reg.open_questions.push(said);
        assert(all(reg.open_questions@) =~= before.push(text));
    } else {
        let ghost before = all(reg.decisions@);
        reg.decisions.push(said);
        assert(all(reg.decisions@) =~= before.push(text));
    }
}

} // verus!
