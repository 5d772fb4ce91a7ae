//! What was written to the wire is read back as it was.
use crate::json::{member, JsonView};
use crate::labels::{Clearance, Scope};
use crate::manifest::{
    locality_text, ArchIdentityView, ArchManifestView, Capabilities, Capability, Determinism,
    Locality,
};
use crate::principal::{ApprovalKind, ApprovalView, ChallengeView, PrincipalView};
use crate::reading::{
    approval_in, approval_kind_in, capabilities_in, challenge_in, clearance_in, determinism_in,
    has_word, identity_in, locality_in, manifest_in, one_more_word, principal_in, scope_in,
    step_kind_in, steps_in,
};
use crate::rpc::{
    error_json, presence_json, request_in, request_json, response_in, response_json, RequestView,
    ResponseView,
};
use crate::task::StepKindView;
use crate::wire::{
    approval_json, approval_kind_text, capabilities_json, capability_json, challenge_json, clearance_json,
    determinism_text, identity_json, manifest_json, principal_json, scope_text, step_kind_json,
};
use vstd::prelude::*;

verus! {

/// The first member with a name is the one that is found under it.
pub proof fn member_is_found(s: Seq<(Seq<char>, JsonView)>, i: int)
    requires
        0 <= i < s.len(),
        forall|j: int| 0 <= j < i ==> (#[trigger] s[j]).0 != s[i].0,
    ensures
        member(s, s[i].0) == Some(s[i].1),
    decreases i,
{
    if i > 0 {
        let rest = s.drop_first();
        assert(rest[i - 1] == s[i]);
        assert forall|j: int| 0 <= j < i - 1 implies (#[trigger] rest[j]).0 != rest[i - 1].0 by {
            assert(rest[j] == s[j + 1]);
        }
        member_is_found(rest, i - 1);
    }
}

/// A scope is read back.
pub proof fn scope_in_reads_back(x: Scope)
    ensures
        scope_in(scope_text(x)) == Some(x),
{
    reveal_strlit("public");
    reveal_strlit("vertical");
    reveal_strlit("business");
    reveal_strlit("personal");
    reveal_strlit("holdout");
    assert("public"@.len() != "vertical"@.len());
    assert("public"@.len() != "business"@.len());
    assert("vertical"@[0] != "business"@[0]);
    assert("public"@.len() != "personal"@.len());
    assert("vertical"@[0] != "personal"@[0]);
    assert("business"@[0] != "personal"@[0]);
    assert("public"@.len() != "holdout"@.len());
    assert("vertical"@.len() != "holdout"@.len());
    assert("business"@.len() != "holdout"@.len());
    assert("personal"@.len() != "holdout"@.len());
}

/// A locality is read back.
pub proof fn locality_in_reads_back(x: Locality)
    ensures
        locality_in(locality_text(x)) == Some(x),
{
    reveal_strlit("local");
    reveal_strlit("on_prem");
    reveal_strlit("peer");
    reveal_strlit("cloud");
    assert("local"@.len() != "on_prem"@.len());
    assert("local"@.len() != "peer"@.len());
    assert("on_prem"@.len() != "peer"@.len());
    assert("local"@[0] != "cloud"@[0]);
    assert("on_prem"@.len() != "cloud"@.len());
    assert("peer"@.len() != "cloud"@.len());
}

/// A determinism is read back.
pub proof fn determinism_in_reads_back(x: Determinism)
    ensures
        determinism_in(determinism_text(x)) == Some(x),
{
    reveal_strlit("seeded_deterministic");
    reveal_strlit("non_deterministic");
    assert("seeded_deterministic"@.len() != "non_deterministic"@.len());
}

/// A kind of approval is read back.
pub proof fn approval_kind_in_reads_back(x: ApprovalKind)
    ensures
        approval_kind_in(approval_kind_text(x)) == Some(x),
{
    reveal_strlit("test");
    reveal_strlit("audit");
    reveal_strlit("human");
    assert("test"@.len() != "audit"@.len());
    assert("test"@.len() != "human"@.len());
    assert("audit"@[0] != "human"@[0]);
}

/// What an arch can do is read back.
pub proof fn capabilities_read_back(x: Capabilities)
    ensures
        capabilities_in(capabilities_json(x)) == Some(x),
{
    reveal_strlit("generate");
    reveal_strlit("plan");
    reveal_strlit("judge");
    assert("generate"@.len() == 8 && "plan"@.len() == 4 && "judge"@.len() == 5);
    let none = Seq::<JsonView>::empty();
    let first = capability_json(x.generate, Capability::Generate);
    let second = first + capability_json(x.plan, Capability::Plan);
    let items = capabilities_json(x)->Array_0;
    let (g, p, j) = (
        JsonView::Text("generate"@),
        JsonView::Text("plan"@),
        JsonView::Text("judge"@),
    );
    assert(first =~= if x.generate {
        none.push(g)
    } else {
        none
    });
    assert(second =~= if x.plan {
        first.push(p)
    } else {
        first
    });
    assert(items =~= if x.judge {
        second.push(j)
    } else {
        second
    });
    assert forall|s: Seq<char>| #[trigger] has_word(items, s) == (x.generate && s == "generate"@
        || x.plan && s == "plan"@ || x.judge && s == "judge"@) by {
        one_more_word(none, g, s);
        one_more_word(first, p, s);
        one_more_word(second, j, s);
    }
}

/// A clearance is read back.
pub proof fn clearance_reads_back(x: Clearance)
    ensures
        clearance_in(clearance_json(x)) == Some(x),
{
    reveal_strlit("max_scope");
    reveal_strlit("third_party_allowed");
    let ms = clearance_json(x)->Object_0;
    assert(member(ms, "max_scope"@) == Some(ms[0].1)) by {
        member_is_found(ms, 0);
    }
    assert(member(ms, "third_party_allowed"@) == Some(ms[1].1)) by {
        assert("max_scope"@.len() != "third_party_allowed"@.len());
        member_is_found(ms, 1);
    }
    scope_in_reads_back(x.max_scope);
}

/// The identity of an arch is read back.
pub proof fn identity_reads_back(x: ArchIdentityView)
    ensures
        identity_in(identity_json(x)) == Some(x),
{
    reveal_strlit("weights_sha256");
    reveal_strlit("engine");
    reveal_strlit("engine_version");
    reveal_strlit("backend");
    reveal_strlit("quant");
    reveal_strlit("kv_cache");
    reveal_strlit("threads");
    reveal_strlit("batch");
    reveal_strlit("sampling");
    reveal_strlit("seed");
    let ms = identity_json(x)->Object_0;
    assert(member(ms, "weights_sha256"@) == Some(ms[0].1)) by {
        member_is_found(ms, 0);
    }
    assert(member(ms, "engine"@) == Some(ms[1].1)) by {
        assert("weights_sha256"@.len() != "engine"@.len());
        member_is_found(ms, 1);
    }
    assert(member(ms, "engine_version"@) == Some(ms[2].1)) by {
        assert("weights_sha256"@[0] != "engine_version"@[0]);
        assert("engine"@.len() != "engine_version"@.len());
        member_is_found(ms, 2);
    }
    assert(member(ms, "backend"@) == Some(ms[3].1)) by {
        assert("weights_sha256"@.len() != "backend"@.len());
        assert("engine"@.len() != "backend"@.len());
        assert("engine_version"@.len() != "backend"@.len());
        member_is_found(ms, 3);
    }
    assert(member(ms, "quant"@) == Some(ms[4].1)) by {
        assert("weights_sha256"@.len() != "quant"@.len());
        assert("engine"@.len() != "quant"@.len());
        assert("engine_version"@.len() != "quant"@.len());
        assert("backend"@.len() != "quant"@.len());
        member_is_found(ms, 4);
    }
    assert(member(ms, "kv_cache"@) == Some(ms[5].1)) by {
        assert("weights_sha256"@.len() != "kv_cache"@.len());
        assert("engine"@.len() != "kv_cache"@.len());
        assert("engine_version"@.len() != "kv_cache"@.len());
        assert("backend"@.len() != "kv_cache"@.len());
        assert("quant"@.len() != "kv_cache"@.len());
        member_is_found(ms, 5);
    }
    assert(member(ms, "threads"@) == Some(ms[6].1)) by {
        assert("weights_sha256"@.len() != "threads"@.len());
        assert("engine"@.len() != "threads"@.len());
        assert("engine_version"@.len() != "threads"@.len());
        assert("backend"@[0] != "threads"@[0]);
        assert("quant"@.len() != "threads"@.len());
        assert("kv_cache"@.len() != "threads"@.len());
        member_is_found(ms, 6);
    }
    assert(member(ms, "batch"@) == Some(ms[7].1)) by {
        assert("weights_sha256"@.len() != "batch"@.len());
        assert("engine"@.len() != "batch"@.len());
        assert("engine_version"@.len() != "batch"@.len());
        assert("backend"@.len() != "batch"@.len());
        assert("quant"@[0] != "batch"@[0]);
        assert("kv_cache"@.len() != "batch"@.len());
        assert("threads"@.len() != "batch"@.len());
        member_is_found(ms, 7);
    }
    assert(member(ms, "sampling"@) == Some(ms[8].1)) by {
        assert("weights_sha256"@.len() != "sampling"@.len());
        assert("engine"@.len() != "sampling"@.len());
        assert("engine_version"@.len() != "sampling"@.len());
        assert("backend"@.len() != "sampling"@.len());
        assert("quant"@.len() != "sampling"@.len());
        assert("kv_cache"@[0] != "sampling"@[0]);
        assert("threads"@.len() != "sampling"@.len());
        assert("batch"@.len() != "sampling"@.len());
        member_is_found(ms, 8);
    }
    assert(member(ms, "seed"@) == Some(ms[9].1)) by {
        assert("weights_sha256"@.len() != "seed"@.len());
        assert("engine"@.len() != "seed"@.len());
        assert("engine_version"@.len() != "seed"@.len());
        assert("backend"@.len() != "seed"@.len());
        assert("quant"@.len() != "seed"@.len());
        assert("kv_cache"@.len() != "seed"@.len());
        assert("threads"@.len() != "seed"@.len());
        assert("batch"@.len() != "seed"@.len());
        assert("sampling"@.len() != "seed"@.len());
        member_is_found(ms, 9);
    }
}

/// The manifest of an arch is read back, whatever it says.
pub proof fn manifest_reads_back(x: ArchManifestView)
    ensures
        manifest_in(manifest_json(x)) == Some(x),
{
    reveal_strlit("name");
    reveal_strlit("capabilities");
    reveal_strlit("locality");
    reveal_strlit("jurisdiction");
    reveal_strlit("retention_days");
    reveal_strlit("cost_per_1k_tokens_eur");
    reveal_strlit("latency_ms_p50");
    reveal_strlit("context_ceiling");
    reveal_strlit("determinism");
    reveal_strlit("identity");
    reveal_strlit("clearance");
    reveal_strlit("governed");
    let ms = manifest_json(x)->Object_0;
    assert(member(ms, "name"@) == Some(ms[0].1)) by {
        member_is_found(ms, 0);
    }
    assert(member(ms, "capabilities"@) == Some(ms[1].1)) by {
        assert("name"@.len() != "capabilities"@.len());
        member_is_found(ms, 1);
    }
    assert(member(ms, "locality"@) == Some(ms[2].1)) by {
        assert("name"@.len() != "locality"@.len());
        assert("capabilities"@.len() != "locality"@.len());
        member_is_found(ms, 2);
    }
    assert(member(ms, "jurisdiction"@) == Some(ms[3].1)) by {
        assert("name"@.len() != "jurisdiction"@.len());
        assert("capabilities"@[0] != "jurisdiction"@[0]);
        assert("locality"@.len() != "jurisdiction"@.len());
        member_is_found(ms, 3);
    }
    assert(member(ms, "retention_days"@) == Some(ms[4].1)) by {
        assert("name"@.len() != "retention_days"@.len());
        assert("capabilities"@.len() != "retention_days"@.len());
        assert("locality"@.len() != "retention_days"@.len());
        assert("jurisdiction"@.len() != "retention_days"@.len());
        member_is_found(ms, 4);
    }
    assert(member(ms, "cost_per_1k_tokens_eur"@) == Some(ms[5].1)) by {
        assert("name"@.len() != "cost_per_1k_tokens_eur"@.len());
        assert("capabilities"@.len() != "cost_per_1k_tokens_eur"@.len());
        assert("locality"@.len() != "cost_per_1k_tokens_eur"@.len());
        assert("jurisdiction"@.len() != "cost_per_1k_tokens_eur"@.len());
        assert("retention_days"@.len() != "cost_per_1k_tokens_eur"@.len());
        member_is_found(ms, 5);
    }
    assert(member(ms, "latency_ms_p50"@) == Some(ms[6].1)) by {
        assert("name"@.len() != "latency_ms_p50"@.len());
        assert("capabilities"@.len() != "latency_ms_p50"@.len());
        assert("locality"@.len() != "latency_ms_p50"@.len());
        assert("jurisdiction"@.len() != "latency_ms_p50"@.len());
        assert("retention_days"@[0] != "latency_ms_p50"@[0]);
        assert("cost_per_1k_tokens_eur"@.len() != "latency_ms_p50"@.len());
        member_is_found(ms, 6);
    }
    assert(member(ms, "context_ceiling"@) == Some(ms[7].1)) by {
        assert("name"@.len() != "context_ceiling"@.len());
        assert("capabilities"@.len() != "context_ceiling"@.len());
        assert("locality"@.len() != "context_ceiling"@.len());
        assert("jurisdiction"@.len() != "context_ceiling"@.len());
        assert("retention_days"@.len() != "context_ceiling"@.len());
        assert("cost_per_1k_tokens_eur"@.len() != "context_ceiling"@.len());
        assert("latency_ms_p50"@.len() != "context_ceiling"@.len());
        member_is_found(ms, 7);
    }
    assert(member(ms, "determinism"@) == Some(ms[8].1)) by {
        assert("name"@.len() != "determinism"@.len());
        assert("capabilities"@.len() != "determinism"@.len());
        assert("locality"@.len() != "determinism"@.len());
        assert("jurisdiction"@.len() != "determinism"@.len());
        assert("retention_days"@.len() != "determinism"@.len());
        assert("cost_per_1k_tokens_eur"@.len() != "determinism"@.len());
        assert("latency_ms_p50"@.len() != "determinism"@.len());
        assert("context_ceiling"@.len() != "determinism"@.len());
        member_is_found(ms, 8);
    }
    assert(member(ms, "identity"@) == Some(ms[9].1)) by {
        assert("name"@.len() != "identity"@.len());
        assert("capabilities"@.len() != "identity"@.len());
        assert("locality"@[0] != "identity"@[0]);
        assert("jurisdiction"@.len() != "identity"@.len());
        assert("retention_days"@.len() != "identity"@.len());
        assert("cost_per_1k_tokens_eur"@.len() != "identity"@.len());
        assert("latency_ms_p50"@.len() != "identity"@.len());
        assert("context_ceiling"@.len() != "identity"@.len());
        assert("determinism"@.len() != "identity"@.len());
        member_is_found(ms, 9);
    }
    assert(member(ms, "clearance"@) == Some(ms[10].1)) by {
        assert("name"@.len() != "clearance"@.len());
        assert("capabilities"@.len() != "clearance"@.len());
        assert("locality"@.len() != "clearance"@.len());
        assert("jurisdiction"@.len() != "clearance"@.len());
        assert("retention_days"@.len() != "clearance"@.len());
        assert("cost_per_1k_tokens_eur"@.len() != "clearance"@.len());
        assert("latency_ms_p50"@.len() != "clearance"@.len());
        assert("context_ceiling"@.len() != "clearance"@.len());
        assert("determinism"@.len() != "clearance"@.len());
        assert("identity"@.len() != "clearance"@.len());
        member_is_found(ms, 10);
    }
    assert(member(ms, "governed"@) == Some(ms[11].1)) by {
        assert("name"@.len() != "governed"@.len());
        assert("capabilities"@.len() != "governed"@.len());
        assert("locality"@[0] != "governed"@[0]);
        assert("jurisdiction"@.len() != "governed"@.len());
        assert("retention_days"@.len() != "governed"@.len());
        assert("cost_per_1k_tokens_eur"@.len() != "governed"@.len());
        assert("latency_ms_p50"@.len() != "governed"@.len());
        assert("context_ceiling"@.len() != "governed"@.len());
        assert("determinism"@.len() != "governed"@.len());
        assert("identity"@[0] != "governed"@[0]);
        assert("clearance"@.len() != "governed"@.len());
        member_is_found(ms, 11);
    }
    capabilities_read_back(x.capabilities);
    locality_in_reads_back(x.locality);
    determinism_in_reads_back(x.determinism);
    identity_reads_back(x.identity);
    clearance_reads_back(x.clearance);
}

/// A challenge is read back.
pub proof fn challenge_reads_back(x: ChallengeView)
    ensures
        challenge_in(challenge_json(x)) == Some(x),
{
    reveal_strlit("resource");
    reveal_strlit("action_digest");
    reveal_strlit("nonce");
    reveal_strlit("expires_at_ms");
    let ms = challenge_json(x)->Object_0;
    assert(member(ms, "resource"@) == Some(ms[0].1)) by {
        member_is_found(ms, 0);
    }
    assert(member(ms, "action_digest"@) == Some(ms[1].1)) by {
        assert("resource"@.len() != "action_digest"@.len());
        member_is_found(ms, 1);
    }
    assert(member(ms, "nonce"@) == Some(ms[2].1)) by {
        assert("resource"@.len() != "nonce"@.len());
        assert("action_digest"@.len() != "nonce"@.len());
        member_is_found(ms, 2);
    }
    assert(member(ms, "expires_at_ms"@) == Some(ms[3].1)) by {
        assert("resource"@.len() != "expires_at_ms"@.len());
        assert("action_digest"@[0] != "expires_at_ms"@[0]);
        assert("nonce"@.len() != "expires_at_ms"@.len());
        member_is_found(ms, 3);
    }
}

/// A principal is read back.
pub proof fn principal_reads_back(x: PrincipalView)
    ensures
        principal_in(principal_json(x)) == Some(x),
{
    reveal_strlit("human");
    reveal_strlit("machine");
    reveal_strlit("device_id");
    reveal_strlit("node_id");
    reveal_strlit("lease_id");
    assert("human"@.len() != "machine"@.len());
    let inner = principal_json(x)->Object_0[0].1->Object_0;
    member_is_found(inner, 0);
    if x is Machine {
        assert("node_id"@.len() != "lease_id"@.len());
        member_is_found(inner, 1);
    }
}

/// An approval is read back: what a person signed is what is judged.
pub proof fn approval_reads_back(x: ApprovalView)
    ensures
        approval_in(approval_json(x)) == Some(x),
{
    reveal_strlit("subject_hash");
    reveal_strlit("kind");
    reveal_strlit("approver");
    reveal_strlit("challenge");
    reveal_strlit("signature_hex");
    let ms = approval_json(x)->Object_0;
    assert(member(ms, "subject_hash"@) == Some(ms[0].1)) by {
        member_is_found(ms, 0);
    }
    assert(member(ms, "kind"@) == Some(ms[1].1)) by {
        assert("subject_hash"@.len() != "kind"@.len());
        member_is_found(ms, 1);
    }
    assert(member(ms, "approver"@) == Some(ms[2].1)) by {
        assert("subject_hash"@.len() != "approver"@.len());
        assert("kind"@.len() != "approver"@.len());
        member_is_found(ms, 2);
    }
    assert(member(ms, "challenge"@) == Some(ms[3].1)) by {
        assert("subject_hash"@.len() != "challenge"@.len());
        assert("kind"@.len() != "challenge"@.len());
        assert("approver"@.len() != "challenge"@.len());
        member_is_found(ms, 3);
    }
    assert(member(ms, "signature_hex"@) == Some(ms[4].1)) by {
        assert("subject_hash"@.len() != "signature_hex"@.len());
        assert("kind"@.len() != "signature_hex"@.len());
        assert("approver"@.len() != "signature_hex"@.len());
        assert("challenge"@.len() != "signature_hex"@.len());
        member_is_found(ms, 4);
    }
    approval_kind_in_reads_back(x.kind);
    principal_reads_back(x.approver);
    if x.challenge is Some {
        challenge_reads_back(x.challenge->0);
    }
}

/// A step kind is read back.
pub proof fn step_kind_reads_back(x: StepKindView)
    ensures
        step_kind_in(step_kind_json(x)) == Some(x),
{
    reveal_strlit("plan");
    reveal_strlit("draft");
    reveal_strlit("judge");
    reveal_strlit("harness");
    reveal_strlit("approve");
    reveal_strlit("release");
    reveal_strlit("kind");
    reveal_strlit("arch_id");
    reveal_strlit("name");
    reveal_strlit("to_dir");
    assert("plan"@.len() != "draft"@.len());
    assert("plan"@.len() != "judge"@.len());
    assert("draft"@[0] != "judge"@[0]);
    assert("plan"@.len() != "harness"@.len());
    assert("draft"@.len() != "harness"@.len());
    assert("judge"@.len() != "harness"@.len());
    assert("plan"@.len() != "approve"@.len());
    assert("draft"@.len() != "approve"@.len());
    assert("judge"@.len() != "approve"@.len());
    assert("harness"@[0] != "approve"@[0]);
    assert("plan"@.len() != "release"@.len());
    assert("draft"@.len() != "release"@.len());
    assert("judge"@.len() != "release"@.len());
    assert("harness"@[0] != "release"@[0]);
    assert("approve"@[0] != "release"@[0]);
    assert("kind"@.len() != "arch_id"@.len());
    assert("kind"@[0] != "name"@[0]);
    assert("kind"@.len() != "to_dir"@.len());
    let ms = step_kind_json(x)->Object_0;
    member_is_found(ms, 0);
    if ms.len() > 1 {
        member_is_found(ms, 1);
    }
}

/// A plan is read back, step for step.
pub proof fn steps_read_back(xs: Seq<StepKindView>)
    ensures
        steps_in(JsonView::Array(Seq::new(xs.len(), |i: int| step_kind_json(xs[i])))) == Some(xs),
{
    let items = Seq::new(xs.len(), |i: int| step_kind_json(xs[i]));
    assert forall|i: int| 0 <= i < items.len() implies step_kind_in(#[trigger] items[i]) == Some(
        xs[i],
    ) by {
        step_kind_reads_back(xs[i]);
    }
    assert(Seq::new(items.len(), |i: int| step_kind_in(items[i])->0) =~= xs);
}

/// A request is read back as it was sent.
pub proof fn request_reads_back(r: RequestView)
    ensures
        request_in(request_json(r)) == Some(r),
{
    reveal_strlit("jsonrpc");
    reveal_strlit("id");
    reveal_strlit("method");
    reveal_strlit("params");
    reveal_strlit("presence");
    assert("jsonrpc"@.len() == 7);
    assert("id"@.len() == 2);
    assert("method"@.len() == 6 && "method"@[0] == 'm');
    assert("params"@.len() == 6 && "params"@[0] == 'p');
    assert("presence"@.len() == 8);
    let ms = request_json(r)->Object_0;
    member_is_found(ms, 0);
    member_is_found(ms, 1);
    member_is_found(ms, 2);
    member_is_found(ms, 3);
    member_is_found(ms, 4);
    if let Some(p) = r.presence {
        reveal_strlit("device_id");
        reveal_strlit("nonce");
        reveal_strlit("signature_hex");
        assert("device_id"@.len() == 9);
        assert("nonce"@.len() == 5);
        assert("signature_hex"@.len() == 13);
        let ps = presence_json(r.presence)->Object_0;
        member_is_found(ps, 0);
        member_is_found(ps, 1);
        member_is_found(ps, 2);
    }
}

/// An answer is read back as it was sent, unless its result is null, which is read as
/// none.
pub proof fn response_reads_back(r: ResponseView)
    requires
        r.result != Some(JsonView::Null),
    ensures
        response_in(response_json(r)) == Some(r),
{
    reveal_strlit("jsonrpc");
    reveal_strlit("id");
    reveal_strlit("result");
    reveal_strlit("error");
    assert("jsonrpc"@.len() == 7);
    assert("id"@.len() == 2);
    assert("result"@.len() == 6);
    assert("error"@.len() == 5);
    let ms = response_json(r)->Object_0;
    member_is_found(ms, 0);
    member_is_found(ms, 1);
    if ms.len() > 2 {
        member_is_found(ms, 2);
    }
    if ms.len() > 3 {
        member_is_found(ms, 3);
    }
    if r.result is None {
        assert forall|i: int| 0 <= i < ms.len() implies (#[trigger] ms[i]).0 != "result"@ by {}
        nothing_is_found(ms, "result"@);
    }
    if r.error is None {
        assert forall|i: int| 0 <= i < ms.len() implies (#[trigger] ms[i]).0 != "error"@ by {}
        nothing_is_found(ms, "error"@);
    }
    if let Some(e) = r.error {
        reveal_strlit("code");
        reveal_strlit("message");
        assert("code"@.len() == 4);
        assert("message"@.len() == 7);
        let es = error_json(e)->Object_0;
        member_is_found(es, 0);
        member_is_found(es, 1);
    }
}

/// What no member is called is not found.
pub proof fn nothing_is_found(s: Seq<(Seq<char>, JsonView)>, name: Seq<char>)
    requires
        forall|i: int| 0 <= i < s.len() ==> (#[trigger] s[i]).0 != name,
    ensures
        member(s, name) is None,
    decreases s.len(),
{
    if s.len() > 0 {
        let rest = s.drop_first();
        assert forall|i: int| 0 <= i < rest.len() implies (#[trigger] rest[i]).0 != name by {
            assert(rest[i] == s[i + 1]);
        }
        nothing_is_found(rest, name);
    }
}

} // verus!
