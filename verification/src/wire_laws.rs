//! What the wire says of each value: every part of it under its name, and every word for one
//! thing alone.
use crate::json::{canonical_hash, field, member, number_field, text_field, JsonView};
use crate::labels::{DataClass, Label, Origin, Scope};
use crate::manifest::{locality_text, Capabilities, Capability, Determinism, Locality};
use crate::principal::{ApprovalKind, ApprovalView, ChallengeView, PrincipalView};
use crate::reading_laws::{member_is_found, nothing_is_found};
use crate::register::{ArtefactRefView, EvidenceView, RegisterView};
use crate::store::{BlobEnvelopeView, LedgerEventView};
use crate::task::{status_text, StepKindView, StepStatusView, StepView, TaskStatus, TaskView};
use crate::wire::{
    approval_json, approval_kind_text, artefact_json, capabilities_json, capability_text,
    challenge_json, class_text, determinism_text, envelope_json, event_json, event_list,
    evidence_json, label_json, link_of, origin_word, principal_json, register_json, scope_text,
    step_json, step_kind_json, step_status_json, task_json, task_list,
};
use vstd::prelude::*;

verus! {

/// Whether a value is a list of these texts, in order.
pub open spec fn lists_texts(v: JsonView, texts: Seq<Seq<char>>) -> bool {
    &&& v is Array
    &&& v->Array_0.len() == texts.len()
    &&& forall|i: int|
        0 <= i < texts.len() ==> #[trigger] v->Array_0[i] == JsonView::Text(texts[i])
}

/// Every word of the wire is for one thing alone.
pub proof fn words_say_one_thing_each(
    scope: Scope,
    class: DataClass,
    origin: Origin,
    kind: ApprovalKind,
    determinism: Determinism,
    locality: Locality,
    capability: Capability,
    status: TaskStatus,
)
    ensures
        scope_text(scope) == "public"@ <==> scope is Public,
        scope_text(scope) == "vertical"@ <==> scope is Vertical,
        scope_text(scope) == "business"@ <==> scope is Business,
        scope_text(scope) == "personal"@ <==> scope is Personal,
        scope_text(scope) == "holdout"@ <==> scope is Holdout,
        class_text(class) == "own"@ <==> class is Own,
        class_text(class) == "third_party_mandated"@ <==> class is ThirdPartyMandated,
        class_text(class) == "unknown"@ <==> class is Unknown,
        origin_word(origin) == "owner_authored"@ <==> origin is OwnerAuthored,
        origin_word(origin) == "web"@ <==> origin is Web,
        approval_kind_text(kind) == "test"@ <==> kind is Test,
        approval_kind_text(kind) == "audit"@ <==> kind is Audit,
        approval_kind_text(kind) == "human"@ <==> kind is Human,
        determinism_text(determinism) == "seeded_deterministic"@ <==> determinism is SeededDeterministic,
        determinism_text(determinism) == "non_deterministic"@ <==> determinism is NonDeterministic,
        locality_text(locality) == "local"@ <==> locality is Local,
        locality_text(locality) == "on_prem"@ <==> locality is OnPrem,
        locality_text(locality) == "peer"@ <==> locality is Peer,
        locality_text(locality) == "cloud"@ <==> locality is Cloud,
        capability_text(capability) == "generate"@ <==> capability is Generate,
        capability_text(capability) == "plan"@ <==> capability is Plan,
        capability_text(capability) == "judge"@ <==> capability is Judge,
        status_text(status) == "queued"@ <==> status is Queued,
        status_text(status) == "running"@ <==> status is Running,
        status_text(status) == "waiting_human"@ <==> status is WaitingHuman,
        status_text(status) == "done"@ <==> status is Done,
        status_text(status) == "failed"@ <==> status is Failed,
        status_text(status) == "stopped"@ <==> status is Stopped,
{
    reveal_strlit("public");
    reveal_strlit("vertical");
    reveal_strlit("business");
    reveal_strlit("personal");
    reveal_strlit("holdout");
    reveal_strlit("own");
    reveal_strlit("third_party_mandated");
    reveal_strlit("unknown");
    reveal_strlit("owner_authored");
    reveal_strlit("web");
    reveal_strlit("test");
    reveal_strlit("audit");
    reveal_strlit("human");
    reveal_strlit("seeded_deterministic");
    reveal_strlit("non_deterministic");
    reveal_strlit("local");
    reveal_strlit("on_prem");
    reveal_strlit("peer");
    reveal_strlit("cloud");
    reveal_strlit("generate");
    reveal_strlit("plan");
    reveal_strlit("judge");
    reveal_strlit("queued");
    reveal_strlit("running");
    reveal_strlit("waiting_human");
    reveal_strlit("done");
    reveal_strlit("failed");
    reveal_strlit("stopped");
    assert("public"@.len() != "vertical"@.len());
    assert("public"@.len() != "business"@.len());
    assert("vertical"@[0] != "business"@[0]);
    assert("public"@.len() != "personal"@.len());
    assert("vertical"@[0] != "personal"@[0]);
    assert("business"@[0] != "personal"@[0]);
    assert("public"@.len() != "holdout"@.len());
    assert("vertical"@.len() != "holdout"@.len());
    assert("business"@.len() != "holdout"@.len());
    assert("personal"@.len() != "holdout"@.len());
    assert("own"@.len() != "third_party_mandated"@.len());
    assert("own"@.len() != "unknown"@.len());
    assert("third_party_mandated"@.len() != "unknown"@.len());
    assert("owner_authored"@.len() != "web"@.len());
    assert("test"@.len() != "audit"@.len());
    assert("test"@.len() != "human"@.len());
    assert("audit"@[0] != "human"@[0]);
    assert("seeded_deterministic"@.len() != "non_deterministic"@.len());
    assert("local"@.len() != "on_prem"@.len());
    assert("local"@.len() != "peer"@.len());
    assert("on_prem"@.len() != "peer"@.len());
    assert("local"@[0] != "cloud"@[0]);
    assert("on_prem"@.len() != "cloud"@.len());
    assert("peer"@.len() != "cloud"@.len());
    assert("generate"@.len() != "plan"@.len());
    assert("generate"@.len() != "judge"@.len());
    assert("plan"@.len() != "judge"@.len());
    assert("queued"@.len() != "running"@.len());
    assert("queued"@.len() != "waiting_human"@.len());
    assert("running"@.len() != "waiting_human"@.len());
    assert("queued"@.len() != "done"@.len());
    assert("running"@.len() != "done"@.len());
    assert("waiting_human"@.len() != "done"@.len());
    assert("queued"@[0] != "failed"@[0]);
    assert("running"@.len() != "failed"@.len());
    assert("waiting_human"@.len() != "failed"@.len());
    assert("done"@.len() != "failed"@.len());
    assert("queued"@.len() != "stopped"@.len());
    assert("running"@[0] != "stopped"@[0]);
    assert("waiting_human"@.len() != "stopped"@.len());
    assert("done"@.len() != "stopped"@.len());
    assert("failed"@.len() != "stopped"@.len());
}

/// A label says its scope, its class, and each origin that it has.
pub proof fn label_is_told_in_full(l: Label)
    ensures
        ({
            let told = label_json(l);
            &&& text_field(told, "scope"@) == Some(scope_text(l.scope))
            &&& text_field(told, "data_class"@) == Some(class_text(l.data_class))
            &&& field(told, "origins"@) is Some
            &&& field(told, "origins"@)->0 is Array
            &&& field(told, "origins"@)->0->Array_0.contains(JsonView::Text("owner_authored"@))
                <==> l.origins.owner_authored
            &&& field(told, "origins"@)->0->Array_0.contains(JsonView::Text("web"@))
                <==> l.origins.web
            &&& forall|x: JsonView| #[trigger]
                field(told, "origins"@)->0->Array_0.contains(x) ==> x == JsonView::Text(
                    "owner_authored"@,
                ) || x == JsonView::Text("web"@)
        }),
{
    let ms = label_json(l)->Object_0;
    reveal_strlit("scope");
    reveal_strlit("data_class");
    reveal_strlit("origins");
    assert(member(ms, "scope"@) == Some(ms[0].1)) by {
        member_is_found(ms, 0);
    }
    assert(member(ms, "data_class"@) == Some(ms[1].1)) by {
        assert("scope"@.len() != "data_class"@.len());
        member_is_found(ms, 1);
    }
    assert(member(ms, "origins"@) == Some(ms[2].1)) by {
        assert("scope"@.len() != "origins"@.len());
        assert("data_class"@.len() != "origins"@.len());
        member_is_found(ms, 2);
    }
    reveal_strlit("owner_authored");
    reveal_strlit("web");
    assert("owner_authored"@.len() != "web"@.len());
    let words = ms[2].1->Array_0;
    let (owner, web) = (JsonView::Text("owner_authored"@), JsonView::Text("web"@));
    assert(owner != web);
    if l.origins.owner_authored && l.origins.web {
        assert(words =~= seq![owner, web]);
        assert(words[0] == owner && words[1] == web);
    } else if l.origins.owner_authored {
        assert(words =~= seq![owner]);
        assert(words[0] == owner);
    } else if l.origins.web {
        assert(words =~= seq![web]);
        assert(words[0] == web);
    } else {
        assert(words =~= Seq::<JsonView>::empty());
    }
}

/// A register says everything that it holds, each list in its order.
pub proof fn register_is_told_in_full(r: RegisterView)
    ensures
        ({
            let told = register_json(r);
            &&& text_field(told, "id"@) == Some(r.id)
            &&& text_field(told, "task_id"@) == Some(r.task_id)
            &&& field(told, "label"@) == Some(label_json(r.label))
            &&& text_field(told, "goal"@) == Some(r.goal)
            &&& field(told, "constraints"@) is Some
            &&& lists_texts(field(told, "constraints"@)->0, r.constraints)
            &&& field(told, "evidence"@) is Some
            &&& field(told, "evidence"@)->0 is Array
            &&& field(told, "evidence"@)->0->Array_0.len() == r.evidence.len()
            &&& forall|i: int|
                0 <= i < r.evidence.len() ==> #[trigger] field(told, "evidence"@)->0->Array_0[i]
                    == evidence_json(r.evidence[i])
            &&& field(told, "decisions"@) is Some
            &&& lists_texts(field(told, "decisions"@)->0, r.decisions)
            &&& field(told, "open_questions"@) is Some
            &&& lists_texts(field(told, "open_questions"@)->0, r.open_questions)
            &&& field(told, "artefacts"@) is Some
            &&& field(told, "artefacts"@)->0 is Array
            &&& field(told, "artefacts"@)->0->Array_0.len() == r.artefacts.len()
            &&& forall|i: int|
                0 <= i < r.artefacts.len() ==> #[trigger] field(told, "artefacts"@)->0->Array_0[i]
                    == artefact_json(r.artefacts[i])
        }),
{
    let ms = register_json(r)->Object_0;
    reveal_strlit("id");
    reveal_strlit("task_id");
    reveal_strlit("label");
    reveal_strlit("goal");
    reveal_strlit("constraints");
    reveal_strlit("evidence");
    reveal_strlit("decisions");
    reveal_strlit("open_questions");
    reveal_strlit("artefacts");
    assert(member(ms, "id"@) == Some(ms[0].1)) by {
        member_is_found(ms, 0);
    }
    assert(member(ms, "task_id"@) == Some(ms[1].1)) by {
        assert("id"@.len() != "task_id"@.len());
        member_is_found(ms, 1);
    }
    assert(member(ms, "label"@) == Some(ms[2].1)) by {
        assert("id"@.len() != "label"@.len());
        assert("task_id"@.len() != "label"@.len());
        member_is_found(ms, 2);
    }
    assert(member(ms, "goal"@) == Some(ms[3].1)) by {
        assert("id"@.len() != "goal"@.len());
        assert("task_id"@.len() != "goal"@.len());
        assert("label"@.len() != "goal"@.len());
        member_is_found(ms, 3);
    }
    assert(member(ms, "constraints"@) == Some(ms[4].1)) by {
        assert("id"@.len() != "constraints"@.len());
        assert("task_id"@.len() != "constraints"@.len());
        assert("label"@.len() != "constraints"@.len());
        assert("goal"@.len() != "constraints"@.len());
        member_is_found(ms, 4);
    }
    assert(member(ms, "evidence"@) == Some(ms[5].1)) by {
        assert("id"@.len() != "evidence"@.len());
        assert("task_id"@.len() != "evidence"@.len());
        assert("label"@.len() != "evidence"@.len());
        assert("goal"@.len() != "evidence"@.len());
        assert("constraints"@.len() != "evidence"@.len());
        member_is_found(ms, 5);
    }
    assert(member(ms, "decisions"@) == Some(ms[6].1)) by {
        assert("id"@.len() != "decisions"@.len());
        assert("task_id"@.len() != "decisions"@.len());
        assert("label"@.len() != "decisions"@.len());
        assert("goal"@.len() != "decisions"@.len());
        assert("constraints"@.len() != "decisions"@.len());
        assert("evidence"@.len() != "decisions"@.len());
        member_is_found(ms, 6);
    }
    assert(member(ms, "open_questions"@) == Some(ms[7].1)) by {
        assert("id"@.len() != "open_questions"@.len());
        assert("task_id"@.len() != "open_questions"@.len());
        assert("label"@.len() != "open_questions"@.len());
        assert("goal"@.len() != "open_questions"@.len());
        assert("constraints"@.len() != "open_questions"@.len());
        assert("evidence"@.len() != "open_questions"@.len());
        assert("decisions"@.len() != "open_questions"@.len());
        member_is_found(ms, 7);
    }
    assert(member(ms, "artefacts"@) == Some(ms[8].1)) by {
        assert("id"@.len() != "artefacts"@.len());
        assert("task_id"@.len() != "artefacts"@.len());
        assert("label"@.len() != "artefacts"@.len());
        assert("goal"@.len() != "artefacts"@.len());
        assert("constraints"@.len() != "artefacts"@.len());
        assert("evidence"@.len() != "artefacts"@.len());
        assert("decisions"@[0] != "artefacts"@[0]);
        assert("open_questions"@.len() != "artefacts"@.len());
        member_is_found(ms, 8);
    }
}

/// A piece of evidence says what it is, where it came from and what it was taken out of.
pub proof fn evidence_is_told_in_full(e: EvidenceView)
    ensures
        ({
            let told = evidence_json(e);
            &&& text_field(told, "content"@) == Some(e.content)
            &&& text_field(told, "origin"@) == Some(origin_word(e.origin))
            &&& text_field(told, "source_hash"@) == Some(e.source_hash)
        }),
{
    let ms = evidence_json(e)->Object_0;
    reveal_strlit("content");
    reveal_strlit("origin");
    reveal_strlit("source_hash");
    assert(member(ms, "content"@) == Some(ms[0].1)) by {
        member_is_found(ms, 0);
    }
    assert(member(ms, "origin"@) == Some(ms[1].1)) by {
        assert("content"@.len() != "origin"@.len());
        member_is_found(ms, 1);
    }
    assert(member(ms, "source_hash"@) == Some(ms[2].1)) by {
        assert("content"@.len() != "source_hash"@.len());
        assert("origin"@.len() != "source_hash"@.len());
        member_is_found(ms, 2);
    }
}

/// A reference to an artefact says its address and its kind.
pub proof fn reference_is_told_in_full(a: ArtefactRefView)
    ensures
        ({
            let told = artefact_json(a);
            &&& text_field(told, "hash"@) == Some(a.hash)
            &&& text_field(told, "kind"@) == Some(a.kind)
        }),
{
    let ms = artefact_json(a)->Object_0;
    reveal_strlit("hash");
    reveal_strlit("kind");
    assert(member(ms, "hash"@) == Some(ms[0].1)) by {
        member_is_found(ms, 0);
    }
    assert(member(ms, "kind"@) == Some(ms[1].1)) by {
        assert("hash"@[0] != "kind"@[0]);
        member_is_found(ms, 1);
    }
}

/// A challenge says what it is for, what it asks for, its nonce and when it ends.
pub proof fn challenge_is_told_in_full(c: ChallengeView)
    ensures
        ({
            let told = challenge_json(c);
            &&& text_field(told, "resource"@) == Some(c.resource)
            &&& text_field(told, "action_digest"@) == Some(c.action_digest)
            &&& text_field(told, "nonce"@) == Some(c.nonce)
            &&& number_field(told, "expires_at_ms"@) == Some(c.expires_at_ms as nat)
        }),
{
    let ms = challenge_json(c)->Object_0;
    reveal_strlit("resource");
    reveal_strlit("action_digest");
    reveal_strlit("nonce");
    reveal_strlit("expires_at_ms");
    assert(member(ms, "resource"@) == Some(ms[0].1)) by {
        member_is_found(ms, 0);
    }
    assert(member(ms, "action_digest"@) == Some(ms[1].1)) by {
        assert("resource"@.len() != "action_digest"@.len());
        member_is_found(ms, 1);
    }
    assert(member(ms, "nonce"@) == Some(ms[2].1)) by {
        assert("resource"@.len() != "nonce"@.len());
        assert("action_digest"@.len() != "nonce"@.len());
        member_is_found(ms, 2);
    }
    assert(member(ms, "expires_at_ms"@) == Some(ms[3].1)) by {
        assert("resource"@.len() != "expires_at_ms"@.len());
        assert("action_digest"@[0] != "expires_at_ms"@[0]);
        assert("nonce"@.len() != "expires_at_ms"@.len());
        member_is_found(ms, 3);
    }
}

/// An approval says what is approved and how, by whom, and what it answers with.
pub proof fn approval_parts_are_told(a: ApprovalView)
    ensures
        ({
            let told = approval_json(a);
            &&& text_field(told, "subject_hash"@) == Some(a.subject_hash)
            &&& text_field(told, "kind"@) == Some(approval_kind_text(a.kind))
            &&& field(told, "approver"@) == Some(principal_json(a.approver))
            &&& a.challenge is Some ==> field(told, "challenge"@) == Some(
                challenge_json(a.challenge->0),
            )
            &&& a.challenge is None ==> field(told, "challenge"@) == Some(JsonView::Null)
            &&& field(told, "signature_hex"@) is Some
            &&& text_field(told, "signature_hex"@) == a.signature_hex
            &&& a.signature_hex is None ==> field(told, "signature_hex"@) == Some(JsonView::Null)
        }),
{
    let ms = approval_json(a)->Object_0;
    reveal_strlit("subject_hash");
    reveal_strlit("kind");
    reveal_strlit("approver");
    reveal_strlit("challenge");
    reveal_strlit("signature_hex");
    assert(member(ms, "subject_hash"@) == Some(ms[0].1)) by {
        member_is_found(ms, 0);
    }
    assert(member(ms, "kind"@) == Some(ms[1].1)) by {
        assert("subject_hash"@.len() != "kind"@.len());
        member_is_found(ms, 1);
    }
    assert(member(ms, "approver"@) == Some(ms[2].1)) by {
        assert("subject_hash"@.len() != "approver"@.len());
        assert("kind"@.len() != "approver"@.len());
        member_is_found(ms, 2);
    }
    assert(member(ms, "challenge"@) == Some(ms[3].1)) by {
        assert("subject_hash"@.len() != "challenge"@.len());
        assert("kind"@.len() != "challenge"@.len());
        assert("approver"@.len() != "challenge"@.len());
        member_is_found(ms, 3);
    }
    assert(member(ms, "signature_hex"@) == Some(ms[4].1)) by {
        assert("subject_hash"@.len() != "signature_hex"@.len());
        assert("kind"@.len() != "signature_hex"@.len());
        assert("approver"@.len() != "signature_hex"@.len());
        assert("challenge"@.len() != "signature_hex"@.len());
        member_is_found(ms, 4);
    }
}

/// A person is told by the device, and a machine by its node and its lease.
pub proof fn principal_is_told_in_full(device_id: Seq<char>, node_id: Seq<char>, lease_id: Seq<char>)
    ensures
        ({
            let person = principal_json(PrincipalView::Human { device_id });
            let machine = principal_json(PrincipalView::Machine { node_id, lease_id });
            &&& field(person, "human"@) is Some
            &&& text_field(field(person, "human"@)->0, "device_id"@) == Some(device_id)
            &&& field(person, "machine"@) is None
            &&& field(machine, "human"@) is None
            &&& field(machine, "machine"@) is Some
            &&& text_field(field(machine, "machine"@)->0, "node_id"@) == Some(node_id)
            &&& text_field(field(machine, "machine"@)->0, "lease_id"@) == Some(lease_id)
        }),
{
    reveal_strlit("human");
    reveal_strlit("machine");
    reveal_strlit("node_id");
    reveal_strlit("lease_id");
    assert("human"@.len() != "machine"@.len());
    assert("node_id"@.len() != "lease_id"@.len());
    let person = principal_json(PrincipalView::Human { device_id })->Object_0;
    let machine = principal_json(PrincipalView::Machine { node_id, lease_id })->Object_0;
    member_is_found(person, 0);
    member_is_found(person[0].1->Object_0, 0);
    nothing_is_found(person, "machine"@);
    member_is_found(machine, 0);
    member_is_found(machine[0].1->Object_0, 0);
    member_is_found(machine[0].1->Object_0, 1);
    nothing_is_found(machine, "human"@);
}

/// A step says what it does, how it stands, when it began and ended and what it took.
pub proof fn step_is_told_in_full(s: StepView)
    ensures
        ({
            let told = step_json(s);
            &&& field(told, "kind"@) == Some(step_kind_json(s.kind))
            &&& field(told, "status"@) == Some(step_status_json(s.status))
            &&& field(told, "started_ms"@) is Some
            &&& s.started_ms is Some ==> number_field(told, "started_ms"@) == Some(s.started_ms->0 as nat)
            &&& s.started_ms is None ==> field(told, "started_ms"@) == Some(JsonView::Null)
            &&& field(told, "ended_ms"@) is Some
            &&& s.ended_ms is Some ==> number_field(told, "ended_ms"@) == Some(s.ended_ms->0 as nat)
            &&& s.ended_ms is None ==> field(told, "ended_ms"@) == Some(JsonView::Null)
            &&& number_field(told, "tokens"@) == Some(s.tokens as nat)
        }),
{
    let ms = step_json(s)->Object_0;
    reveal_strlit("kind");
    reveal_strlit("status");
    reveal_strlit("started_ms");
    reveal_strlit("ended_ms");
    reveal_strlit("tokens");
    assert(member(ms, "kind"@) == Some(ms[0].1)) by {
        member_is_found(ms, 0);
    }
    assert(member(ms, "status"@) == Some(ms[1].1)) by {
        assert("kind"@.len() != "status"@.len());
        member_is_found(ms, 1);
    }
    assert(member(ms, "started_ms"@) == Some(ms[2].1)) by {
        assert("kind"@.len() != "started_ms"@.len());
        assert("status"@.len() != "started_ms"@.len());
        member_is_found(ms, 2);
    }
    assert(member(ms, "ended_ms"@) == Some(ms[3].1)) by {
        assert("kind"@.len() != "ended_ms"@.len());
        assert("status"@.len() != "ended_ms"@.len());
        assert("started_ms"@.len() != "ended_ms"@.len());
        member_is_found(ms, 3);
    }
    assert(member(ms, "tokens"@) == Some(ms[4].1)) by {
        assert("kind"@.len() != "tokens"@.len());
        assert("status"@[0] != "tokens"@[0]);
        assert("started_ms"@.len() != "tokens"@.len());
        assert("ended_ms"@.len() != "tokens"@.len());
        member_is_found(ms, 4);
    }
}

/// How a step stands is told by one word, and a step that failed says why.
pub proof fn step_status_is_told_in_full(s: StepStatusView)
    ensures
        step_status_json(s) == JsonView::Text("pending"@) <==> s is Pending,
        step_status_json(s) == JsonView::Text("running"@) <==> s is Running,
        step_status_json(s) == JsonView::Text("waiting_human"@) <==> s is WaitingHuman,
        step_status_json(s) == JsonView::Text("done"@) <==> s is Done,
        text_field(step_status_json(s), "failed"@) is Some <==> s is Failed,
        s is Failed ==> text_field(step_status_json(s), "failed"@) == Some(s->Failed_0),
{
    reveal_strlit("pending");
    reveal_strlit("running");
    reveal_strlit("waiting_human");
    reveal_strlit("done");
    assert("pending"@[0] != "running"@[0]);
    assert("pending"@.len() != "waiting_human"@.len());
    assert("pending"@.len() != "done"@.len());
    assert("running"@.len() != "waiting_human"@.len());
    assert("running"@.len() != "done"@.len());
    assert("waiting_human"@.len() != "done"@.len());
    if s is Failed {
        member_is_found(step_status_json(s)->Object_0, 0);
    }
}

/// What a step does is told by its word, and by the arch, the harness or the directory that it
/// is for.
pub proof fn step_kind_is_told_in_full(s: StepKindView)
    ensures
        ({
            let told = step_kind_json(s);
            &&& text_field(told, "kind"@) == Some("plan"@) <==> s is Plan
            &&& text_field(told, "kind"@) == Some("draft"@) <==> s is Draft
            &&& text_field(told, "kind"@) == Some("judge"@) <==> s is Judge
            &&& text_field(told, "kind"@) == Some("harness"@) <==> s is Harness
            &&& text_field(told, "kind"@) == Some("approve"@) <==> s is Approve
            &&& text_field(told, "kind"@) == Some("release"@) <==> s is Release
            &&& s is Plan ==> text_field(told, "arch_id"@) == Some(s->Plan_arch_id)
            &&& s is Draft ==> text_field(told, "arch_id"@) == Some(s->Draft_arch_id)
            &&& s is Judge ==> text_field(told, "arch_id"@) == Some(s->Judge_arch_id)
            &&& s is Harness ==> text_field(told, "name"@) == Some(s->name)
            &&& s is Release ==> text_field(told, "to_dir"@) == Some(s->to_dir)
        }),
{
    reveal_strlit("kind");
    reveal_strlit("arch_id");
    reveal_strlit("name");
    reveal_strlit("to_dir");
    reveal_strlit("plan");
    reveal_strlit("draft");
    reveal_strlit("judge");
    reveal_strlit("harness");
    reveal_strlit("approve");
    reveal_strlit("release");
    assert("kind"@.len() != "arch_id"@.len());
    assert("kind"@[0] != "name"@[0]);
    assert("kind"@.len() != "to_dir"@.len());
    assert("plan"@.len() == 4 && "draft"@.len() == 5 && "judge"@.len() == 5);
    assert("harness"@.len() == 7 && "approve"@.len() == 7 && "release"@.len() == 7);
    assert("draft"@[0] != "judge"@[0]);
    assert("harness"@[0] != "approve"@[0]);
    assert("harness"@[0] != "release"@[0]);
    assert("approve"@[0] != "release"@[0]);
    let ms = step_kind_json(s)->Object_0;
    member_is_found(ms, 0);
    if s !is Approve {
        member_is_found(ms, 1);
    }
}

/// A task says what it is and how it stands, with each of its steps in its place.
pub proof fn task_is_told_in_full(t: TaskView)
    ensures
        ({
            let told = task_json(t);
            &&& text_field(told, "id"@) == Some(t.id)
            &&& text_field(told, "register"@) == Some(t.register)
            &&& text_field(told, "goal"@) == Some(t.goal)
            &&& text_field(told, "artefact_type"@) == Some(t.artefact_type)
            &&& field(told, "steps"@) is Some
            &&& field(told, "steps"@)->0 is Array
            &&& field(told, "steps"@)->0->Array_0.len() == t.steps.len()
            &&& forall|i: int|
                0 <= i < t.steps.len() ==> #[trigger] field(told, "steps"@)->0->Array_0[i]
                    == step_json(t.steps[i])
            &&& text_field(told, "status"@) == Some(status_text(t.status))
            &&& number_field(told, "created_ms"@) == Some(t.created_ms as nat)
        }),
{
    let ms = task_json(t)->Object_0;
    reveal_strlit("id");
    reveal_strlit("register");
    reveal_strlit("goal");
    reveal_strlit("artefact_type");
    reveal_strlit("steps");
    reveal_strlit("status");
    reveal_strlit("created_ms");
    assert(member(ms, "id"@) == Some(ms[0].1)) by {
        member_is_found(ms, 0);
    }
    assert(member(ms, "register"@) == Some(ms[1].1)) by {
        assert("id"@.len() != "register"@.len());
        member_is_found(ms, 1);
    }
    assert(member(ms, "goal"@) == Some(ms[2].1)) by {
        assert("id"@.len() != "goal"@.len());
        assert("register"@.len() != "goal"@.len());
        member_is_found(ms, 2);
    }
    assert(member(ms, "artefact_type"@) == Some(ms[3].1)) by {
        assert("id"@.len() != "artefact_type"@.len());
        assert("register"@.len() != "artefact_type"@.len());
        assert("goal"@.len() != "artefact_type"@.len());
        member_is_found(ms, 3);
    }
    assert(member(ms, "steps"@) == Some(ms[4].1)) by {
        assert("id"@.len() != "steps"@.len());
        assert("register"@.len() != "steps"@.len());
        assert("goal"@.len() != "steps"@.len());
        assert("artefact_type"@.len() != "steps"@.len());
        member_is_found(ms, 4);
    }
    assert(member(ms, "status"@) == Some(ms[5].1)) by {
        assert("id"@.len() != "status"@.len());
        assert("register"@.len() != "status"@.len());
        assert("goal"@.len() != "status"@.len());
        assert("artefact_type"@.len() != "status"@.len());
        assert("steps"@.len() != "status"@.len());
        member_is_found(ms, 5);
    }
    assert(member(ms, "created_ms"@) == Some(ms[6].1)) by {
        assert("id"@.len() != "created_ms"@.len());
        assert("register"@.len() != "created_ms"@.len());
        assert("goal"@.len() != "created_ms"@.len());
        assert("artefact_type"@.len() != "created_ms"@.len());
        assert("steps"@.len() != "created_ms"@.len());
        assert("status"@.len() != "created_ms"@.len());
        member_is_found(ms, 6);
    }
}

/// A list of tasks has every task in its place, and no other.
pub proof fn tasks_are_told_in_order(ts: Seq<TaskView>)
    ensures
        task_list(ts) is Array,
        task_list(ts)->Array_0.len() == ts.len(),
        forall|i: int|
            0 <= i < ts.len() ==> #[trigger] task_list(ts)->Array_0[i] == task_json(ts[i]),
{
}

/// What an arch can do is told by a word for each, and by no other word.
pub proof fn capabilities_are_told_in_full(c: Capabilities)
    ensures
        ({
            let told = capabilities_json(c);
            &&& told is Array
            &&& told->Array_0.contains(JsonView::Text("generate"@)) <==> c.generate
            &&& told->Array_0.contains(JsonView::Text("plan"@)) <==> c.plan
            &&& told->Array_0.contains(JsonView::Text("judge"@)) <==> c.judge
        }),
{
    reveal_strlit("generate");
    reveal_strlit("plan");
    reveal_strlit("judge");
    assert("generate"@.len() == 8 && "plan"@.len() == 4 && "judge"@.len() == 5);
    let (g, p, j) = (
        JsonView::Text("generate"@),
        JsonView::Text("plan"@),
        JsonView::Text("judge"@),
    );
    let words = capabilities_json(c)->Array_0;
    let first: int = if c.generate {
        1
    } else {
        0
    };
    let second: int = if c.plan {
        first + 1
    } else {
        first
    };
    if c.generate {
        assert(words[0] == g);
    }
    if c.plan {
        assert(words[first] == p);
    }
    if c.judge {
        assert(words[second] == j);
    }
}

/// An artefact is shown by its address, what it is of, its label and its size.
pub proof fn envelope_is_told_in_full(b: BlobEnvelopeView)
    ensures
        ({
            let told = envelope_json(b);
            &&& text_field(told, "hash"@) == Some(b.hash)
            &&& text_field(told, "subject"@) == Some(b.subject)
            &&& field(told, "label"@) == Some(label_json(b.label))
            &&& number_field(told, "len"@) == Some(b.len as nat)
        }),
{
    let ms = envelope_json(b)->Object_0;
    reveal_strlit("hash");
    reveal_strlit("subject");
    reveal_strlit("label");
    reveal_strlit("len");
    assert(member(ms, "hash"@) == Some(ms[0].1)) by {
        member_is_found(ms, 0);
    }
    assert(member(ms, "subject"@) == Some(ms[1].1)) by {
        assert("hash"@.len() != "subject"@.len());
        member_is_found(ms, 1);
    }
    assert(member(ms, "label"@) == Some(ms[2].1)) by {
        assert("hash"@.len() != "label"@.len());
        assert("subject"@.len() != "label"@.len());
        member_is_found(ms, 2);
    }
    assert(member(ms, "len"@) == Some(ms[3].1)) by {
        assert("hash"@.len() != "len"@.len());
        assert("subject"@.len() != "len"@.len());
        assert("label"@.len() != "len"@.len());
        member_is_found(ms, 3);
    }
}

/// An event is shown by its kind, its time and the hash of what it commits to, whatever the
/// chain has beside them.
pub proof fn event_is_told_in_full(e: LedgerEventView, link: Seq<(Seq<char>, JsonView)>)
    requires
        forall|i: int|
            0 <= i < link.len() ==> (#[trigger] link[i]).0 != "kind"@ && link[i].0 != "wall_ms"@
                && link[i].0 != "payload_hash"@,
    ensures
        text_field(event_json(e, link), "kind"@) == Some(e.kind),
        number_field(event_json(e, link), "wall_ms"@) == Some(e.wall_ms as nat),
        text_field(event_json(e, link), "payload_hash"@) == Some(canonical_hash(e.payload)),
        forall|i: int|
            0 <= i < link.len() ==> #[trigger] event_json(e, link)->Object_0[i] == link[i],
{
    reveal_strlit("kind");
    reveal_strlit("wall_ms");
    reveal_strlit("payload_hash");
    assert("kind"@.len() != "wall_ms"@.len());
    assert("kind"@.len() != "payload_hash"@.len());
    assert("wall_ms"@.len() != "payload_hash"@.len());
    let ms = event_json(e, link)->Object_0;
    let n: int = link.len() as int;
    assert(ms[n] == ("kind"@, JsonView::Text(e.kind)));
    assert(ms[n + 1] == ("wall_ms"@, JsonView::Unsigned(e.wall_ms as nat)));
    assert(ms[n + 2] == ("payload_hash"@, JsonView::Text(canonical_hash(e.payload))));
    assert forall|j: int| 0 <= j < n implies #[trigger] ms[j] == link[j] by {}
    member_is_found(ms, n);
    member_is_found(ms, n + 1);
    member_is_found(ms, n + 2);
}

/// A list of events has every event in its place, each with what the chain has in that place of
/// the record.
pub proof fn events_are_told_in_order(
    events: Seq<LedgerEventView>,
    chain: Seq<JsonView>,
    from: int,
    i: int,
)
    requires
        0 <= from,
        0 <= i < events.len(),
        from + i < chain.len(),
        chain[from + i] is Object,
    ensures
        event_list(events, chain, from) is Array,
        event_list(events, chain, from)->Array_0.len() == events.len(),
        event_list(events, chain, from)->Array_0[i] == event_json(
            events[i],
            chain[from + i]->Object_0,
        ),
{
    assert(link_of(chain, from + i) == chain[from + i]->Object_0);
}

} // verus!
