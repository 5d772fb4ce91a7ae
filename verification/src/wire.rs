//! The JSON forms of what crosses the wire and of what the ledger commits to.
use crate::json::{
    canonical_hash, hash_canonical, members_to_json, optional_number, optional_number_to_json,
    optional_text, optional_text_to_json, put_members, text, texts_json, texts_to_json, Fields,
    Items, Json, JsonView,
};
use crate::labels::{Clearance, DataClass, Label, Origin, Scope};
use crate::manifest::{
    locality_name, locality_text, ArchIdentity, ArchIdentityView, ArchManifest, ArchManifestView,
    Capabilities, Capability, Determinism,
};
use crate::model::{all, opt};
use crate::principal::{
    Approval, ApprovalKind, ApprovalView, Challenge, ChallengeView, Principal, PrincipalView,
};
use crate::register::{
    ArtefactRef, ArtefactRefView, Evidence, EvidenceView, Register, RegisterView,
};
use crate::store::{BlobEnvelope, BlobEnvelopeView, LedgerEvent, LedgerEventView};
use crate::task::{
    status_name, status_text, Step, StepKind, StepKindView, StepStatus, StepStatusView, StepView,
    Task, TaskView,
};
use vstd::prelude::*;

verus! {

/// A scope as the wire spells it.
pub open spec fn scope_text(x: Scope) -> Seq<char> {
    match x {
        Scope::Public => "public"@,
        Scope::Vertical => "vertical"@,
        Scope::Business => "business"@,
        Scope::Personal => "personal"@,
        Scope::Holdout => "holdout"@,
    }
}

/// A scope as the wire spells it.
pub fn scope_name(x: Scope) -> (r: &'static str)
    ensures
        r@ == scope_text(x),
{
    match x {
        Scope::Public => "public",
        Scope::Vertical => "vertical",
        Scope::Business => "business",
        Scope::Personal => "personal",
        Scope::Holdout => "holdout",
    }
}

/// A data class as the wire spells it.
pub open spec fn class_text(x: DataClass) -> Seq<char> {
    match x {
        DataClass::Own => "own"@,
        DataClass::ThirdPartyMandated => "third_party_mandated"@,
        DataClass::Unknown => "unknown"@,
    }
}

/// A data class as the wire spells it.
pub fn class_name(x: DataClass) -> (r: &'static str)
    ensures
        r@ == class_text(x),
{
    match x {
        DataClass::Own => "own",
        DataClass::ThirdPartyMandated => "third_party_mandated",
        DataClass::Unknown => "unknown",
    }
}

/// An origin as the wire spells it.
pub open spec fn origin_word(x: Origin) -> Seq<char> {
    match x {
        Origin::OwnerAuthored => "owner_authored"@,
        Origin::Web => "web"@,
    }
}

/// An origin as the wire spells it.
pub fn origin_word_of(x: Origin) -> (r: &'static str)
    ensures
        r@ == origin_word(x),
{
    match x {
        Origin::OwnerAuthored => "owner_authored",
        Origin::Web => "web",
    }
}

/// An approval kind as the wire spells it.
pub open spec fn approval_kind_text(x: ApprovalKind) -> Seq<char> {
    match x {
        ApprovalKind::Test => "test"@,
        ApprovalKind::Audit => "audit"@,
        ApprovalKind::Human => "human"@,
    }
}

/// An approval kind as the wire spells it.
pub fn approval_kind_name(x: ApprovalKind) -> (r: &'static str)
    ensures
        r@ == approval_kind_text(x),
{
    match x {
        ApprovalKind::Test => "test",
        ApprovalKind::Audit => "audit",
        ApprovalKind::Human => "human",
    }
}

/// A determinism as the wire spells it.
pub open spec fn determinism_text(x: Determinism) -> Seq<char> {
    match x {
        Determinism::SeededDeterministic => "seeded_deterministic"@,
        Determinism::NonDeterministic => "non_deterministic"@,
    }
}

/// A determinism as the wire spells it.
pub fn determinism_name(x: Determinism) -> (r: &'static str)
    ensures
        r@ == determinism_text(x),
{
    match x {
        Determinism::SeededDeterministic => "seeded_deterministic",
        Determinism::NonDeterministic => "non_deterministic",
    }
}

/// The set of origins as a list of their names.
pub open spec fn origins_json(l: Label) -> JsonView {
    let owner = if l.origins.owner_authored {
        seq!["owner_authored"@]
    } else {
        Seq::empty()
    };
    texts_json(
        if l.origins.web {
            owner.push("web"@)
        } else {
            owner
        },
    )
}

fn origins_to_json(l: &Label) -> (r: Json)
    ensures
        r@ == origins_json(*l),
{
    let mut names: Vec<String> = Vec::new();
    if l.origins.owner_authored {
        names.push("owner_authored".to_owned());
    }
    if l.origins.web {
        names.push("web".to_owned());
    }
    let ghost owner = if l.origins.owner_authored {
        seq!["owner_authored"@]
    } else {
        Seq::<Seq<char>>::empty()
    };
    assert(all(names@) =~= if l.origins.web {
        owner.push("web"@)
    } else {
        owner
    });
    texts_to_json(&names)
}

/// A label.
pub open spec fn label_json(x: Label) -> JsonView {
    JsonView::Object(
        seq![
            ("scope"@, JsonView::Text(scope_text(x.scope))),
            ("data_class"@, JsonView::Text(class_text(x.data_class))),
            ("origins"@, origins_json(x)),
        ],
    )
}

/// A label.
pub fn label_to_json(x: &Label) -> (r: Json)
    ensures
        r@ == label_json(*x),
{
    let mut f = Fields::new();
    f.put_text("scope", scope_name(x.scope));
    f.put_text("data_class", class_name(x.data_class));
    f.put("origins", origins_to_json(x));
    assert(f@ =~= label_json(*x)->Object_0);
    f.object()
}

/// A principal, under the word for what it is.
pub open spec fn principal_json(x: PrincipalView) -> JsonView {
    match x {
        PrincipalView::Human { device_id } => JsonView::Object(
            seq![
                (
                    "human"@,
                    JsonView::Object(seq![("device_id"@, JsonView::Text(device_id))]),
                ),
            ],
        ),
        PrincipalView::Machine { node_id, lease_id } => JsonView::Object(
            seq![
                (
                    "machine"@,
                    JsonView::Object(
                        seq![
                            ("node_id"@, JsonView::Text(node_id)),
                            ("lease_id"@, JsonView::Text(lease_id)),
                        ],
                    ),
                ),
            ],
        ),
    }
}

/// A principal, under the word for what it is.
pub fn principal_to_json(x: &Principal) -> (r: Json)
    ensures
        r@ == principal_json(x@),
{
    let mut inner = Fields::new();
    let mut f = Fields::new();
    match x {
        Principal::Human { device_id } => {
            inner.put_text("device_id", device_id.as_str());
            assert(inner@ =~= seq![("device_id"@, JsonView::Text(device_id@))]);
            f.put("human", inner.object());
        },
        Principal::Machine { node_id, lease_id } => {
            inner.put_text("node_id", node_id.as_str());
            inner.put_text("lease_id", lease_id.as_str());
            assert(inner@ =~= seq![
                ("node_id"@, JsonView::Text(node_id@)),
                ("lease_id"@, JsonView::Text(lease_id@)),
            ]);
            f.put("machine", inner.object());
        },
    }
    assert(f@ =~= principal_json(x@)->Object_0);
    f.object()
}

/// A challenge.
pub open spec fn challenge_json(x: ChallengeView) -> JsonView {
    JsonView::Object(
        seq![
            ("resource"@, JsonView::Text(x.resource)),
            ("action_digest"@, JsonView::Text(x.action_digest)),
            ("nonce"@, JsonView::Text(x.nonce)),
            ("expires_at_ms"@, JsonView::Unsigned(x.expires_at_ms as nat)),
        ],
    )
}

/// A challenge.
pub fn challenge_to_json(x: &Challenge) -> (r: Json)
    ensures
        r@ == challenge_json(x@),
{
    let mut f = Fields::new();
    f.put_text("resource", x.resource.as_str());
    f.put_text("action_digest", x.action_digest.as_str());
    f.put_text("nonce", x.nonce.as_str());
    f.put("expires_at_ms", Json::Unsigned(x.expires_at_ms as u64));
    assert(f@ =~= challenge_json(x@)->Object_0);
    f.object()
}

/// A challenge, or null.
pub open spec fn optional_challenge(x: Option<ChallengeView>) -> JsonView {
    match x {
        Some(c) => challenge_json(c),
        None => JsonView::Null,
    }
}

fn optional_challenge_to_json(x: &Option<Challenge>) -> (r: Json)
    ensures
        r@ == optional_challenge(opt(*x)),
{
    match x {
        Some(c) => challenge_to_json(c),
        None => Json::Null,
    }
}

/// An approval.
pub open spec fn approval_json(x: ApprovalView) -> JsonView {
    JsonView::Object(
        seq![
            ("subject_hash"@, JsonView::Text(x.subject_hash)),
            ("kind"@, JsonView::Text(approval_kind_text(x.kind))),
            ("approver"@, principal_json(x.approver)),
            ("challenge"@, optional_challenge(x.challenge)),
            ("signature_hex"@, optional_text(x.signature_hex)),
        ],
    )
}

/// An approval.
pub fn approval_to_json(x: &Approval) -> (r: Json)
    ensures
        r@ == approval_json(x@),
{
    let mut f = Fields::new();
    f.put_text("subject_hash", x.subject_hash.as_str());
    f.put_text("kind", approval_kind_name(x.kind));
    f.put("approver", principal_to_json(&x.approver));
    f.put("challenge", optional_challenge_to_json(&x.challenge));
    f.put("signature_hex", optional_text_to_json(&x.signature_hex));
    assert(f@ =~= approval_json(x@)->Object_0);
    f.object()
}

/// A piece of evidence.
pub open spec fn evidence_json(x: EvidenceView) -> JsonView {
    JsonView::Object(
        seq![
            ("content"@, JsonView::Text(x.content)),
            ("origin"@, JsonView::Text(origin_word(x.origin))),
            ("source_hash"@, JsonView::Text(x.source_hash)),
        ],
    )
}

/// A piece of evidence.
pub fn evidence_to_json(x: &Evidence) -> (r: Json)
    ensures
        r@ == evidence_json(x@),
{
    let mut f = Fields::new();
    f.put_text("content", x.content.as_str());
    f.put_text("origin", origin_word_of(x.origin));
    f.put_text("source_hash", x.source_hash.as_str());
    assert(f@ =~= evidence_json(x@)->Object_0);
    f.object()
}

/// A list of evidence.
pub open spec fn evidence_list(s: Seq<EvidenceView>) -> JsonView {
    JsonView::Array(s.map_values(|x: EvidenceView| evidence_json(x)))
}

/// A list of evidence.
pub fn evidence_list_to_json(v: &Vec<Evidence>) -> (r: Json)
    ensures
        r@ == evidence_list(all(v@)),
{
    let mut items = Items::new();
    let mut i: usize = 0;
    while i < v.len()
        invariant
            i <= v@.len(),
            items@.len() == i,
            forall|k: int| 0 <= k < i ==> #[trigger] items@[k] == evidence_json(v@[k]@),
        decreases v@.len() - i,
    {
        items.add(evidence_to_json(&v[i]));
        i += 1;
    }
    assert(items@ =~= all(v@).map_values(|x: EvidenceView| evidence_json(x)));
    items.array()
}

/// A reference to an artefact.
pub open spec fn artefact_json(x: ArtefactRefView) -> JsonView {
    JsonView::Object(
        seq![
            ("hash"@, JsonView::Text(x.hash)),
            ("kind"@, JsonView::Text(x.kind)),
        ],
    )
}

/// A reference to an artefact.
pub fn artefact_to_json(x: &ArtefactRef) -> (r: Json)
    ensures
        r@ == artefact_json(x@),
{
    let mut f = Fields::new();
    f.put_text("hash", x.hash.as_str());
    f.put_text("kind", x.kind.as_str());
    assert(f@ =~= artefact_json(x@)->Object_0);
    f.object()
}

/// A list of references to artefacts.
pub open spec fn artefact_list(s: Seq<ArtefactRefView>) -> JsonView {
    JsonView::Array(s.map_values(|x: ArtefactRefView| artefact_json(x)))
}

/// A list of references to artefacts.
pub fn artefact_list_to_json(v: &Vec<ArtefactRef>) -> (r: Json)
    ensures
        r@ == artefact_list(all(v@)),
{
    let mut items = Items::new();
    let mut i: usize = 0;
    while i < v.len()
        invariant
            i <= v@.len(),
            items@.len() == i,
            forall|k: int| 0 <= k < i ==> #[trigger] items@[k] == artefact_json(v@[k]@),
        decreases v@.len() - i,
    {
        items.add(artefact_to_json(&v[i]));
        i += 1;
    }
    assert(items@ =~= all(v@).map_values(|x: ArtefactRefView| artefact_json(x)));
    items.array()
}

/// A register.
pub open spec fn register_json(x: RegisterView) -> JsonView {
    JsonView::Object(
        seq![
            ("id"@, JsonView::Text(x.id)),
            ("task_id"@, JsonView::Text(x.task_id)),
            ("label"@, label_json(x.label)),
            ("goal"@, JsonView::Text(x.goal)),
            ("constraints"@, texts_json(x.constraints)),
            ("evidence"@, evidence_list(x.evidence)),
            ("decisions"@, texts_json(x.decisions)),
            ("open_questions"@, texts_json(x.open_questions)),
            ("artefacts"@, artefact_list(x.artefacts)),
        ],
    )
}

/// A register.
pub fn register_to_json(x: &Register) -> (r: Json)
    ensures
        r@ == register_json(x@),
{
    let mut f = Fields::new();
    f.put_text("id", x.id.as_str());
    f.put_text("task_id", x.task_id.as_str());
    f.put("label", label_to_json(&x.label));
    f.put_text("goal", x.goal.as_str());
    f.put("constraints", texts_to_json(&x.constraints));
    f.put("evidence", evidence_list_to_json(&x.evidence));
    f.put("decisions", texts_to_json(&x.decisions));
    f.put("open_questions", texts_to_json(&x.open_questions));
    f.put("artefacts", artefact_list_to_json(&x.artefacts));
    assert(f@ =~= register_json(x@)->Object_0);
    f.object()
}

/// A step kind, with its tag first.
pub open spec fn step_kind_json(x: StepKindView) -> JsonView {
    JsonView::Object(
        match x {
            StepKindView::Plan { arch_id } => seq![
                ("kind"@, JsonView::Text("plan"@)),
                ("arch_id"@, JsonView::Text(arch_id)),
            ],
            StepKindView::Draft { arch_id } => seq![
                ("kind"@, JsonView::Text("draft"@)),
                ("arch_id"@, JsonView::Text(arch_id)),
            ],
            StepKindView::Judge { arch_id } => seq![
                ("kind"@, JsonView::Text("judge"@)),
                ("arch_id"@, JsonView::Text(arch_id)),
            ],
            StepKindView::Harness { name } => seq![
                ("kind"@, JsonView::Text("harness"@)),
                ("name"@, JsonView::Text(name)),
            ],
            StepKindView::Approve => seq![("kind"@, JsonView::Text("approve"@))],
            StepKindView::Release { to_dir } => seq![
                ("kind"@, JsonView::Text("release"@)),
                ("to_dir"@, JsonView::Text(to_dir)),
            ],
        },
    )
}

/// A step kind, with its tag first.
pub fn step_kind_to_json(x: &StepKind) -> (r: Json)
    ensures
        r@ == step_kind_json(x@),
{
    let mut f = Fields::new();
    match x {
        StepKind::Plan { arch_id } => {
            f.put_text("kind", "plan");
            f.put_text("arch_id", arch_id.as_str());
        },
        StepKind::Draft { arch_id } => {
            f.put_text("kind", "draft");
            f.put_text("arch_id", arch_id.as_str());
        },
        StepKind::Judge { arch_id } => {
            f.put_text("kind", "judge");
            f.put_text("arch_id", arch_id.as_str());
        },
        StepKind::Harness { name } => {
            f.put_text("kind", "harness");
            f.put_text("name", name.as_str());
        },
        StepKind::Approve => {
            f.put_text("kind", "approve");
        },
        StepKind::Release { to_dir } => {
            f.put_text("kind", "release");
            f.put_text("to_dir", to_dir.as_str());
        },
    }
    assert(f@ =~= step_kind_json(x@)->Object_0);
    f.object()
}

/// A step status; a failure carries its reason.
pub open spec fn step_status_json(x: StepStatusView) -> JsonView {
    match x {
        StepStatusView::Pending => JsonView::Text("pending"@),
        StepStatusView::Running => JsonView::Text("running"@),
        StepStatusView::WaitingHuman => JsonView::Text("waiting_human"@),
        StepStatusView::Done => JsonView::Text("done"@),
        StepStatusView::Failed(why) => JsonView::Object(seq![("failed"@, JsonView::Text(why))]),
    }
}

/// A step status; a failure carries its reason.
pub fn step_status_to_json(x: &StepStatus) -> (r: Json)
    ensures
        r@ == step_status_json(x@),
{
    match x {
        StepStatus::Pending => text("pending"),
        StepStatus::Running => text("running"),
        StepStatus::WaitingHuman => text("waiting_human"),
        StepStatus::Done => text("done"),
        StepStatus::Failed(why) => {
            let mut f = Fields::new();
            f.put_text("failed", why.as_str());
            assert(f@ =~= seq![("failed"@, JsonView::Text(why@))]);
            f.object()
        },
    }
}

/// A step.
pub open spec fn step_json(x: StepView) -> JsonView {
    JsonView::Object(
        seq![
            ("kind"@, step_kind_json(x.kind)),
            ("status"@, step_status_json(x.status)),
            ("started_ms"@, optional_number(x.started_ms)),
            ("ended_ms"@, optional_number(x.ended_ms)),
            ("tokens"@, JsonView::Unsigned(x.tokens as nat)),
        ],
    )
}

/// A step.
pub fn step_to_json(x: &Step) -> (r: Json)
    ensures
        r@ == step_json(x@),
{
    let mut f = Fields::new();
    f.put("kind", step_kind_to_json(&x.kind));
    f.put("status", step_status_to_json(&x.status));
    f.put("started_ms", optional_number_to_json(x.started_ms));
    f.put("ended_ms", optional_number_to_json(x.ended_ms));
    f.put("tokens", Json::Unsigned(x.tokens as u64));
    assert(f@ =~= step_json(x@)->Object_0);
    f.object()
}

/// The steps of a task.
pub open spec fn step_list(s: Seq<StepView>) -> JsonView {
    JsonView::Array(s.map_values(|x: StepView| step_json(x)))
}

/// The steps of a task.
pub fn step_list_to_json(v: &Vec<Step>) -> (r: Json)
    ensures
        r@ == step_list(all(v@)),
{
    let mut items = Items::new();
    let mut i: usize = 0;
    while i < v.len()
        invariant
            i <= v@.len(),
            items@.len() == i,
            forall|k: int| 0 <= k < i ==> #[trigger] items@[k] == step_json(v@[k]@),
        decreases v@.len() - i,
    {
        items.add(step_to_json(&v[i]));
        i += 1;
    }
    assert(items@ =~= all(v@).map_values(|x: StepView| step_json(x)));
    items.array()
}

/// A task.
pub open spec fn task_json(x: TaskView) -> JsonView {
    JsonView::Object(
        seq![
            ("id"@, JsonView::Text(x.id)),
            ("register"@, JsonView::Text(x.register)),
            ("goal"@, JsonView::Text(x.goal)),
            ("artefact_type"@, JsonView::Text(x.artefact_type)),
            ("steps"@, step_list(x.steps)),
            ("status"@, JsonView::Text(status_text(x.status))),
            ("created_ms"@, JsonView::Unsigned(x.created_ms as nat)),
        ],
    )
}

/// A task.
pub fn task_to_json(x: &Task) -> (r: Json)
    ensures
        r@ == task_json(x@),
{
    let mut f = Fields::new();
    f.put_text("id", x.id.as_str());
    f.put_text("register", x.register.as_str());
    f.put_text("goal", x.goal.as_str());
    f.put_text("artefact_type", x.artefact_type.as_str());
    f.put("steps", step_list_to_json(&x.steps));
    f.put_text("status", status_name(x.status));
    f.put("created_ms", Json::Unsigned(x.created_ms as u64));
    assert(f@ =~= task_json(x@)->Object_0);
    f.object()
}

/// A list of tasks.
pub open spec fn task_list(s: Seq<TaskView>) -> JsonView {
    JsonView::Array(s.map_values(|x: TaskView| task_json(x)))
}

/// A list of tasks.
pub fn task_list_to_json(v: &Vec<Task>) -> (r: Json)
    ensures
        r@ == task_list(all(v@)),
{
    let mut items = Items::new();
    let mut i: usize = 0;
    while i < v.len()
        invariant
            i <= v@.len(),
            items@.len() == i,
            forall|k: int| 0 <= k < i ==> #[trigger] items@[k] == task_json(v@[k]@),
        decreases v@.len() - i,
    {
        items.add(task_to_json(&v[i]));
        i += 1;
    }
    assert(items@ =~= all(v@).map_values(|x: TaskView| task_json(x)));
    items.array()
}

/// A clearance.
pub open spec fn clearance_json(x: Clearance) -> JsonView {
    JsonView::Object(
        seq![
            ("max_scope"@, JsonView::Text(scope_text(x.max_scope))),
            ("third_party_allowed"@, JsonView::Bool(x.third_party_allowed)),
        ],
    )
}

/// A clearance.
pub fn clearance_to_json(x: &Clearance) -> (r: Json)
    ensures
        r@ == clearance_json(*x),
{
    let mut f = Fields::new();
    f.put_text("max_scope", scope_name(x.max_scope));
    f.put("third_party_allowed", Json::Bool(x.third_party_allowed));
    assert(f@ =~= clearance_json(*x)->Object_0);
    f.object()
}

/// A capability as the wire spells it.
pub open spec fn capability_text(c: Capability) -> Seq<char> {
    match c {
        Capability::Generate => "generate"@,
        Capability::Plan => "plan"@,
        Capability::Judge => "judge"@,
    }
}

/// The capability, if an arch has it.
pub open spec fn capability_json(has: bool, c: Capability) -> Seq<JsonView> {
    if has {
        seq![JsonView::Text(capability_text(c))]
    } else {
        Seq::empty()
    }
}

/// The capabilities of an arch: a word for each that it has.
pub open spec fn capabilities_json(x: Capabilities) -> JsonView {
    JsonView::Array(
        capability_json(x.generate, Capability::Generate) + capability_json(
            x.plan,
            Capability::Plan,
        ) + capability_json(x.judge, Capability::Judge),
    )
}

/// The capabilities of an arch: a word for each that it has.
pub fn capabilities_to_json(x: &Capabilities) -> (r: Json)
    ensures
        r@ == capabilities_json(*x),
{
    let mut items = Items::new();
    if x.generate {
        items.add(text("generate"));
    }
    if x.plan {
        items.add(text("plan"));
    }
    if x.judge {
        items.add(text("judge"));
    }
    assert(items@ =~= capabilities_json(*x)->Array_0);
    items.array()
}

/// The identity of an arch.
pub open spec fn identity_json(x: ArchIdentityView) -> JsonView {
    JsonView::Object(
        seq![
            ("weights_sha256"@, JsonView::Text(x.weights_sha256)),
            ("engine"@, JsonView::Text(x.engine)),
            ("engine_version"@, JsonView::Text(x.engine_version)),
            ("backend"@, JsonView::Text(x.backend)),
            ("quant"@, JsonView::Text(x.quant)),
            ("kv_cache"@, JsonView::Text(x.kv_cache)),
            ("threads"@, JsonView::Unsigned(x.threads as nat)),
            ("batch"@, JsonView::Unsigned(x.batch as nat)),
            ("sampling"@, JsonView::Object(x.sampling)),
            ("seed"@, optional_number(x.seed)),
        ],
    )
}

/// The identity of an arch.
pub fn identity_to_json(x: &ArchIdentity) -> (r: Json)
    ensures
        r@ == identity_json(x@),
{
    let mut f = Fields::new();
    f.put_text("weights_sha256", x.weights_sha256.as_str());
    f.put_text("engine", x.engine.as_str());
    f.put_text("engine_version", x.engine_version.as_str());
    f.put_text("backend", x.backend.as_str());
    f.put_text("quant", x.quant.as_str());
    f.put_text("kv_cache", x.kv_cache.as_str());
    f.put("threads", Json::Unsigned(x.threads as u64));
    f.put("batch", Json::Unsigned(x.batch as u64));
    f.put("sampling", members_to_json(&x.sampling));
    f.put("seed", optional_number_to_json(x.seed));
    assert(f@ =~= identity_json(x@)->Object_0);
    f.object()
}

/// A number as it was written, or null.
pub open spec fn optional_real(x: Option<Seq<char>>) -> JsonView {
    match x {
        Some(digits) => JsonView::Real(digits),
        None => JsonView::Null,
    }
}

/// A number as it was written, or null.
pub fn optional_real_to_json(x: &Option<String>) -> (r: Json)
    ensures
        r@ == optional_real(opt(*x)),
{
    match x {
        Some(digits) => Json::Real(digits.clone()),
        None => Json::Null,
    }
}

/// A small number, or null.
pub open spec fn optional_small(n: Option<u32>) -> JsonView {
    match n {
        Some(m) => JsonView::Unsigned(m as nat),
        None => JsonView::Null,
    }
}

fn optional_small_to_json(n: Option<u32>) -> (r: Json)
    ensures
        r@ == optional_small(n),
{
    match n {
        Some(m) => Json::Unsigned(m as u64),
        None => Json::Null,
    }
}

/// The manifest of an arch.
pub open spec fn manifest_json(x: ArchManifestView) -> JsonView {
    JsonView::Object(
        seq![
            ("name"@, JsonView::Text(x.name)),
            ("capabilities"@, capabilities_json(x.capabilities)),
            ("locality"@, JsonView::Text(locality_text(x.locality))),
            ("jurisdiction"@, JsonView::Text(x.jurisdiction)),
            ("retention_days"@, optional_small(x.retention_days)),
            ("cost_per_1k_tokens_eur"@, optional_real(x.cost_per_1k_tokens_eur)),
            ("latency_ms_p50"@, JsonView::Unsigned(x.latency_ms_p50 as nat)),
            ("context_ceiling"@, JsonView::Unsigned(x.context_ceiling as nat)),
            ("determinism"@, JsonView::Text(determinism_text(x.determinism))),
            ("identity"@, identity_json(x.identity)),
            ("clearance"@, clearance_json(x.clearance)),
            ("governed"@, JsonView::Bool(x.governed)),
        ],
    )
}

/// The manifest of an arch.
pub fn manifest_to_json(x: &ArchManifest) -> (r: Json)
    ensures
        r@ == manifest_json(x@),
{
    let mut f = Fields::new();
    f.put_text("name", x.name.as_str());
    f.put("capabilities", capabilities_to_json(&x.capabilities));
    f.put_text("locality", locality_name(x.locality));
    f.put_text("jurisdiction", x.jurisdiction.as_str());
    f.put("retention_days", optional_small_to_json(x.retention_days));
    f.put("cost_per_1k_tokens_eur", optional_real_to_json(&x.cost_per_1k_tokens_eur));
    f.put("latency_ms_p50", Json::Unsigned(x.latency_ms_p50 as u64));
    f.put("context_ceiling", Json::Unsigned(x.context_ceiling as u64));
    f.put_text("determinism", determinism_name(x.determinism));
    f.put("identity", identity_to_json(&x.identity));
    f.put("clearance", clearance_to_json(&x.clearance));
    f.put("governed", Json::Bool(x.governed));
    assert(f@ =~= manifest_json(x@)->Object_0);
    f.object()
}

/// An artefact without its bytes.
pub open spec fn envelope_json(x: BlobEnvelopeView) -> JsonView {
    JsonView::Object(
        seq![
            ("hash"@, JsonView::Text(x.hash)),
            ("subject"@, JsonView::Text(x.subject)),
            ("label"@, label_json(x.label)),
            ("len"@, JsonView::Unsigned(x.len as nat)),
        ],
    )
}

/// An artefact without its bytes.
pub fn envelope_to_json(x: &BlobEnvelope) -> (r: Json)
    ensures
        r@ == envelope_json(x@),
{
    let mut f = Fields::new();
    f.put_text("hash", x.hash.as_str());
    f.put_text("subject", x.subject.as_str());
    f.put("label", label_to_json(&x.label));
    f.put("len", Json::Unsigned(x.len as u64));
    assert(f@ =~= envelope_json(x@)->Object_0);
    f.object()
}

/// What the chain of the record has of an event beside what the kernel put there: its
/// place, and what ties it to the event before.
pub open spec fn link_of(chain: Seq<JsonView>, i: int) -> Seq<(Seq<char>, JsonView)> {
    if 0 <= i < chain.len() && chain[i] is Object {
        chain[i]->Object_0
    } else {
        Seq::empty()
    }
}

/// An event of the record, after what its chain has of it: what it commits to is shown as
/// a hash.
pub open spec fn event_json(x: LedgerEventView, link: Seq<(Seq<char>, JsonView)>) -> JsonView {
    JsonView::Object(
        link + seq![
            ("kind"@, JsonView::Text(x.kind)),
            ("wall_ms"@, JsonView::Unsigned(x.wall_ms as nat)),
            ("payload_hash"@, JsonView::Text(canonical_hash(x.payload))),
        ],
    )
}

/// An event of the record, after what its chain has of it: what it commits to is shown as
/// a hash.
pub fn event_to_json(x: &LedgerEvent, chain: &Vec<Json>, i: usize) -> (r: Json)
    ensures
        r@ == event_json(x@, link_of(all(chain@), i as int)),
{
    let mut f = Fields::new();
    if i < chain.len() {
        assert(all(chain@)[i as int] == chain@[i as int]@);
        if let Json::Object(_) = &chain[i] {
            put_members(&mut f, &chain[i]);
        }
    }
    assert(f@ =~= link_of(all(chain@), i as int));
    f.put_text("kind", x.kind.as_str());
    f.put("wall_ms", Json::Unsigned(x.wall_ms));
    f.put_text("payload_hash", hash_canonical(&x.payload).as_str());
    assert(f@ =~= event_json(x@, link_of(all(chain@), i as int))->Object_0);
    f.object()
}

/// A list of events, the first of which stands at `from` on the record.
pub open spec fn event_list(s: Seq<LedgerEventView>, chain: Seq<JsonView>, from: int) -> JsonView {
    JsonView::Array(Seq::new(s.len(), |i: int| event_json(s[i], link_of(chain, from + i))))
}

/// A list of events, the first of which stands at `from` on the record.
pub fn event_list_to_json(v: &Vec<LedgerEvent>, chain: &Vec<Json>, from: usize) -> (r: Json)
    requires
        from + v@.len() <= usize::MAX,
    ensures
        r@ == event_list(all(v@), all(chain@), from as int),
{
    let mut items = Items::new();
    let mut i: usize = 0;
    while i < v.len()
        invariant
            i <= v@.len(),
            from + v@.len() <= usize::MAX,
            items@.len() == i,
            forall|k: int|
                0 <= k < i ==> #[trigger] items@[k] == event_json(
                    v@[k]@,
                    link_of(all(chain@), from + k),
                ),
        decreases v@.len() - i,
    {
        items.add(event_to_json(&v[i], chain, from + i));
        i += 1;
    }
    assert(items@ =~= event_list(all(v@), all(chain@), from as int)->Array_0);
    items.array()
}

} // verus!
