//! Reading back what crosses the wire: steps, approvals and manifests out of JSON.
use crate::json::{
    bool_field, copy_members, field, members, named, number_field, text_field, with_names, Json,
    JsonView, Member,
};
use crate::labels::{Clearance, Scope};
use crate::manifest::{
    ArchIdentity, ArchIdentityView, ArchManifest, ArchManifestView, Capabilities, Determinism,
    Locality,
};
use crate::model::{all, opt, Duplicate};
use crate::principal::{
    Approval, ApprovalKind, ApprovalView, Challenge, ChallengeView, Principal, PrincipalView,
};
use crate::task::{StepKind, StepKindView};
use crate::text::{cat, decimal, decimal_text, same, signed_decimal, signed_decimal_text};
use vstd::prelude::*;

verus! {

/// The names of what a step kind with this tag has, in their order.
pub open spec fn step_names(tag: Seq<char>) -> Seq<Seq<char>> {
    if tag == "plan"@ || tag == "draft"@ || tag == "judge"@ {
        seq!["kind"@, "arch_id"@]
    } else if tag == "harness"@ {
        seq!["kind"@, "name"@]
    } else if tag == "approve"@ {
        seq!["kind"@]
    } else if tag == "release"@ {
        seq!["kind"@, "to_dir"@]
    } else {
        Seq::empty()
    }
}

/// A step kind with its parts under their names: an array has the tag first.
pub open spec fn step_parts(v: JsonView) -> JsonView {
    match v {
        JsonView::Array(items) => if items.len() > 0 && items[0] is Text {
            let names = step_names(items[0]->Text_0);
            named(v, names, names.len())
        } else {
            JsonView::Null
        },
        _ => v,
    }
}

fn read_step_parts(v: &Json) -> (r: Json)
    ensures
        r@ == step_parts(v@),
{
    let items = match v {
        Json::Array(items) => items,
        _ => return v.copy(),
    };
    assert(v@->Array_0.len() == items@.len());
    if items.len() == 0 {
        return Json::Null;
    }
    assert(v@->Array_0[0] == items@[0]@);
    let tag = match &items[0] {
        Json::Text(tag) => tag.as_str(),
        _ => return Json::Null,
    };
    let names: Vec<&str> = if same(tag, "plan") || same(tag, "draft") || same(tag, "judge") {
        vec!["kind", "arch_id"]
    } else if same(tag, "harness") {
        vec!["kind", "name"]
    } else if same(tag, "approve") {
        vec!["kind"]
    } else if same(tag, "release") {
        vec!["kind", "to_dir"]
    } else {
        Vec::new()
    };
    assert(all(names@) =~= step_names(tag@));
    let least: usize = names.len();
    with_names(v, &names, least)
}

/// A step kind: its tag says which, and each kind has what it needs.
pub open spec fn step_kind_in(v: JsonView) -> Option<StepKindView> {
    step_kind_of(step_parts(v))
}

/// The step kind that an object is.
pub open spec fn step_kind_of(v: JsonView) -> Option<StepKindView> {
    match text_field(v, "kind"@) {
        None => None,
        Some(tag) => if tag == "plan"@ {
            match text_field(v, "arch_id"@) {
                Some(arch_id) => Some(StepKindView::Plan { arch_id }),
                None => None,
            }
        } else if tag == "draft"@ {
            match text_field(v, "arch_id"@) {
                Some(arch_id) => Some(StepKindView::Draft { arch_id }),
                None => None,
            }
        } else if tag == "judge"@ {
            match text_field(v, "arch_id"@) {
                Some(arch_id) => Some(StepKindView::Judge { arch_id }),
                None => None,
            }
        } else if tag == "harness"@ {
            match text_field(v, "name"@) {
                Some(name) => Some(StepKindView::Harness { name }),
                None => None,
            }
        } else if tag == "approve"@ {
            Some(StepKindView::Approve)
        } else if tag == "release"@ {
            match text_field(v, "to_dir"@) {
                Some(to_dir) => Some(StepKindView::Release { to_dir }),
                None => None,
            }
        } else {
            None
        },
    }
}

/// A step kind, if the value is one.
pub fn read_step_kind(v: &Json) -> (r: Option<StepKind>)
    ensures
        opt(r) == step_kind_in(v@),
{
    if let Json::Array(_) = v {
        let parts = read_step_parts(v);
        return read_step_object(&parts);
    }
    read_step_object(v)
}

fn read_step_object(v: &Json) -> (r: Option<StepKind>)
    ensures
        opt(r) == step_kind_of(v@),
{
    let tag = match v.text_at("kind") {
        Some(t) => t.as_str(),
        None => return None,
    };
    if same(tag, "plan") {
        match v.text_at("arch_id") {
            Some(a) => Some(StepKind::Plan { arch_id: a.dup() }),
            None => None,
        }
    } else if same(tag, "draft") {
        match v.text_at("arch_id") {
            Some(a) => Some(StepKind::Draft { arch_id: a.dup() }),
            None => None,
        }
    } else if same(tag, "judge") {
        match v.text_at("arch_id") {
            Some(a) => Some(StepKind::Judge { arch_id: a.dup() }),
            None => None,
        }
    } else if same(tag, "harness") {
        match v.text_at("name") {
            Some(n) => Some(StepKind::Harness { name: n.dup() }),
            None => None,
        }
    } else if same(tag, "approve") {
        Some(StepKind::Approve)
    } else if same(tag, "release") {
        match v.text_at("to_dir") {
            Some(d) => Some(StepKind::Release { to_dir: d.dup() }),
            None => None,
        }
    } else {
        None
    }
}

/// Whether every one of these is a step kind.
pub open spec fn are_step_kinds(items: Seq<JsonView>) -> bool {
    forall|i: int| 0 <= i < items.len() ==> step_kind_in(#[trigger] items[i]) is Some
}

/// A list of step kinds: an array, every element of which is one.
pub open spec fn steps_in(v: JsonView) -> Option<Seq<StepKindView>> {
    match v {
        JsonView::Array(items) => if are_step_kinds(items) {
            Some(Seq::new(items.len(), |i: int| step_kind_in(items[i])->0))
        } else {
            None
        },
        _ => None,
    }
}

/// A list of step kinds, if the value is one.
pub fn read_steps(v: &Json) -> (r: Option<Vec<StepKind>>)
    ensures
        r is Some <==> steps_in(v@) is Some,
        r is Some ==> all(r->0@) == steps_in(v@)->0,
{
    let items = match v {
        Json::Array(items) => items,
        _ => return None,
    };
    let ghost views = v@->Array_0;
    assert(views.len() == items@.len());
    let mut out: Vec<StepKind> = Vec::new();
    let mut i: usize = 0;
    while i < items.len()
        invariant
            i <= items@.len(),
            v@ == JsonView::Array(views),
            views.len() == items@.len(),
            forall|k: int| 0 <= k < items@.len() ==> #[trigger] views[k] == items@[k]@,
            out@.len() == i,
            forall|k: int|
                0 <= k < i ==> step_kind_in(#[trigger] views[k]) == Some(out@[k]@),
        decreases items@.len() - i,
    {
        assert(views[i as int] == items@[i as int]@);
        match read_step_kind(&items[i]) {
            Some(s) => out.push(s),
            None => {
                return None;
            },
        }
        i += 1;
    }
    assert(all(out@) =~= Seq::new(views.len(), |i: int| step_kind_in(views[i])->0));
    Some(out)
}

/// A principal: an object with one member, which says what it is.
pub open spec fn principal_in(v: JsonView) -> Option<PrincipalView> {
    match v {
        JsonView::Object(ms) => if ms.len() != 1 {
            None
        } else if ms[0].0 == "human"@ {
            match text_field(ms[0].1, "device_id"@) {
                Some(device_id) => Some(PrincipalView::Human { device_id }),
                None => None,
            }
        } else if ms[0].0 == "machine"@ {
            match (text_field(ms[0].1, "node_id"@), text_field(ms[0].1, "lease_id"@)) {
                (Some(node_id), Some(lease_id)) => Some(
                    PrincipalView::Machine { node_id, lease_id },
                ),
                _ => None,
            }
        } else {
            None
        },
        _ => None,
    }
}

/// A principal, if the value is one.
pub fn read_principal(v: &Json) -> (r: Option<Principal>)
    ensures
        opt(r) == principal_in(v@),
{
    let ms = match v {
        Json::Object(ms) => ms,
        _ => return None,
    };
    assert(v@->Object_0.len() == ms@.len());
    if ms.len() != 1 {
        return None;
    }
    assert(v@->Object_0[0] == (ms@[0].name@, ms@[0].value@));
    let inner = &ms[0].value;
    if same(ms[0].name.as_str(), "human") {
        match inner.text_at("device_id") {
            Some(d) => Some(Principal::Human { device_id: d.dup() }),
            None => None,
        }
    } else if same(ms[0].name.as_str(), "machine") {
        match (inner.text_at("node_id"), inner.text_at("lease_id")) {
            (Some(n), Some(l)) => Some(Principal::Machine { node_id: n.dup(), lease_id: l.dup() }),
            _ => None,
        }
    } else {
        None
    }
}

/// The names of what a challenge has, in their order.
pub open spec fn challenge_names() -> Seq<Seq<char>> {
    seq!["resource"@, "action_digest"@, "nonce"@, "expires_at_ms"@]
}

/// A challenge.
pub open spec fn challenge_in(v: JsonView) -> Option<ChallengeView> {
    challenge_of(named(v, challenge_names(), 4))
}

/// The challenge that an object is.
pub open spec fn challenge_of(v: JsonView) -> Option<ChallengeView> {
    match (
        text_field(v, "resource"@),
        text_field(v, "action_digest"@),
        text_field(v, "nonce"@),
        number_field(v, "expires_at_ms"@),
    ) {
        (Some(resource), Some(action_digest), Some(nonce), Some(n)) => Some(
            ChallengeView { resource, action_digest, nonce, expires_at_ms: n as u64 },
        ),
        _ => None,
    }
}

/// A challenge, if the value is one.
pub fn read_challenge(v: &Json) -> (r: Option<Challenge>)
    ensures
        opt(r) == challenge_in(v@),
{
    if let Json::Array(_) = v {
        let names = vec!["resource", "action_digest", "nonce", "expires_at_ms"];
        assert(all(names@) =~= challenge_names());
        let parts = with_names(v, &names, 4);
        return read_challenge_object(&parts);
    }
    read_challenge_object(v)
}

fn read_challenge_object(v: &Json) -> (r: Option<Challenge>)
    ensures
        opt(r) == challenge_of(v@),
{
    match (
        v.text_at("resource"),
        v.text_at("action_digest"),
        v.text_at("nonce"),
        v.number_at("expires_at_ms"),
    ) {
        (Some(a), Some(b), Some(c), Some(n)) => Some(
            Challenge {
                resource: a.dup(),
                action_digest: b.dup(),
                nonce: c.dup(),
                expires_at_ms: n,
            },
        ),
        _ => None,
    }
}

/// The word that a value is: itself, or the one name of an object that has nothing under
/// it.
pub open spec fn word_of(v: JsonView) -> Option<Seq<char>> {
    match v {
        JsonView::Text(s) => Some(s),
        JsonView::Object(ms) => if ms.len() == 1 && ms[0].1 == JsonView::Null {
            Some(ms[0].0)
        } else {
            None
        },
        _ => None,
    }
}

/// The word under a name.
pub open spec fn word_field(v: JsonView, name: Seq<char>) -> Option<Seq<char>> {
    match field(v, name) {
        Some(x) => word_of(x),
        None => None,
    }
}

fn read_word(v: &Json) -> (r: Option<&String>)
    ensures
        r is Some <==> word_of(v@) is Some,
        r is Some ==> r->0@ == word_of(v@)->0,
{
    match v {
        Json::Text(s) => Some(s),
        Json::Object(ms) => {
            assert(v@->Object_0.len() == ms@.len());
            if ms.len() != 1 {
                return None;
            }
            assert(v@->Object_0[0] == (ms@[0].name@, ms@[0].value@));
            match &ms[0].value {
                Json::Null => Some(&ms[0].name),
                _ => None,
            }
        },
        _ => None,
    }
}

fn word_at<'a>(v: &'a Json, name: &str) -> (r: Option<&'a String>)
    ensures
        r is Some <==> word_field(v@, name@) is Some,
        r is Some ==> r->0@ == word_field(v@, name@)->0,
{
    match v.get(name) {
        Some(x) => read_word(x),
        None => None,
    }
}

/// The kind of approval that a word names.
pub open spec fn approval_kind_in(s: Seq<char>) -> Option<ApprovalKind> {
    if s == "test"@ {
        Some(ApprovalKind::Test)
    } else if s == "audit"@ {
        Some(ApprovalKind::Audit)
    } else if s == "human"@ {
        Some(ApprovalKind::Human)
    } else {
        None
    }
}

fn read_approval_kind(s: &str) -> (r: Option<ApprovalKind>)
    ensures
        r == approval_kind_in(s@),
{
    if same(s, "test") {
        Some(ApprovalKind::Test)
    } else if same(s, "audit") {
        Some(ApprovalKind::Audit)
    } else if same(s, "human") {
        Some(ApprovalKind::Human)
    } else {
        None
    }
}

/// What may be left out: nothing where there is nothing or null.
pub open spec fn left_out(v: Option<JsonView>) -> bool {
    v is None || v == Some(JsonView::Null)
}

/// A challenge that may be left out.
pub open spec fn challenge_if_there(v: JsonView) -> Result<Option<ChallengeView>, ()> {
    let c = field(v, "challenge"@);
    if left_out(c) {
        Ok(None)
    } else {
        match challenge_in(c->0) {
            Some(c) => Ok(Some(c)),
            None => Err(()),
        }
    }
}

/// A text that may be left out.
pub open spec fn text_if_there(v: JsonView, name: Seq<char>) -> Result<Option<Seq<char>>, ()> {
    let t = field(v, name);
    if left_out(t) {
        Ok(None)
    } else {
        match t->0 {
            JsonView::Text(s) => Ok(Some(s)),
            _ => Err(()),
        }
    }
}

fn read_challenge_if_there(v: &Json) -> (r: Result<Option<Challenge>, ()>)
    ensures
        match r {
            Ok(c) => challenge_if_there(v@) == Ok::<Option<ChallengeView>, ()>(opt(c)),
            Err(()) => challenge_if_there(v@) is Err,
        },
{
    match v.get("challenge") {
        None => Ok(None),
        Some(c) => {
            if let Json::Null = c {
                return Ok(None);
            }
            match read_challenge(c) {
                Some(c) => Ok(Some(c)),
                None => Err(()),
            }
        },
    }
}

fn read_text_if_there(v: &Json, name: &str) -> (r: Result<Option<String>, ()>)
    ensures
        match r {
            Ok(t) => text_if_there(v@, name@) == Ok::<Option<Seq<char>>, ()>(opt(t)),
            Err(()) => text_if_there(v@, name@) is Err,
        },
{
    match v.get(name) {
        None => Ok(None),
        Some(Json::Null) => Ok(None),
        Some(Json::Text(s)) => Ok(Some(s.dup())),
        Some(_) => Err(()),
    }
}

/// The names of what an approval has, in their order.
pub open spec fn approval_names() -> Seq<Seq<char>> {
    seq!["subject_hash"@, "kind"@, "approver"@, "challenge"@, "signature_hex"@]
}

/// An approval.
pub open spec fn approval_in(v: JsonView) -> Option<ApprovalView> {
    approval_of(named(v, approval_names(), 5))
}

/// The approval that an object is.
pub open spec fn approval_of(v: JsonView) -> Option<ApprovalView> {
    match (
        text_field(v, "subject_hash"@),
        word_field(v, "kind"@),
        field(v, "approver"@),
        challenge_if_there(v),
        text_if_there(v, "signature_hex"@),
    ) {
        (Some(subject_hash), Some(kind), Some(approver), Ok(challenge), Ok(signature_hex)) => match (
            approval_kind_in(kind),
            principal_in(approver),
        ) {
            (Some(kind), Some(approver)) => Some(
                ApprovalView { subject_hash, kind, approver, challenge, signature_hex },
            ),
            _ => None,
        },
        _ => None,
    }
}

/// An approval, if the value is one.
pub fn read_approval(v: &Json) -> (r: Option<Approval>)
    ensures
        opt(r) == approval_in(v@),
{
    if let Json::Array(_) = v {
        let names = vec!["subject_hash", "kind", "approver", "challenge", "signature_hex"];
        assert(all(names@) =~= approval_names());
        let parts = with_names(v, &names, 5);
        return read_approval_object(&parts);
    }
    read_approval_object(v)
}

fn read_approval_object(v: &Json) -> (r: Option<Approval>)
    ensures
        opt(r) == approval_of(v@),
{
    let subject = match v.text_at("subject_hash") {
        Some(s) => s.dup(),
        None => return None,
    };
    let kind = match word_at(v, "kind") {
        Some(s) => read_approval_kind(s.as_str()),
        None => return None,
    };
    let approver = match v.get("approver") {
        Some(a) => read_principal(a),
        None => return None,
    };
    let challenge = match read_challenge_if_there(v) {
        Ok(c) => c,
        Err(()) => return None,
    };
    let signature_hex = match read_text_if_there(v, "signature_hex") {
        Ok(s) => s,
        Err(()) => return None,
    };
    match (kind, approver) {
        (Some(kind), Some(approver)) => Some(
            Approval { subject_hash: subject, kind, approver, challenge, signature_hex },
        ),
        _ => None,
    }
}

/// The scope that a word names.
pub open spec fn scope_in(s: Seq<char>) -> Option<Scope> {
    if s == "public"@ {
        Some(Scope::Public)
    } else if s == "vertical"@ {
        Some(Scope::Vertical)
    } else if s == "business"@ {
        Some(Scope::Business)
    } else if s == "personal"@ {
        Some(Scope::Personal)
    } else if s == "holdout"@ {
        Some(Scope::Holdout)
    } else {
        None
    }
}

fn read_scope(s: &str) -> (r: Option<Scope>)
    ensures
        r == scope_in(s@),
{
    if same(s, "public") {
        Some(Scope::Public)
    } else if same(s, "vertical") {
        Some(Scope::Vertical)
    } else if same(s, "business") {
        Some(Scope::Business)
    } else if same(s, "personal") {
        Some(Scope::Personal)
    } else if same(s, "holdout") {
        Some(Scope::Holdout)
    } else {
        None
    }
}

/// The locality that a word names.
pub open spec fn locality_in(s: Seq<char>) -> Option<Locality> {
    if s == "local"@ {
        Some(Locality::Local)
    } else if s == "on_prem"@ {
        Some(Locality::OnPrem)
    } else if s == "peer"@ {
        Some(Locality::Peer)
    } else if s == "cloud"@ {
        Some(Locality::Cloud)
    } else {
        None
    }
}

fn read_locality(s: &str) -> (r: Option<Locality>)
    ensures
        r == locality_in(s@),
{
    if same(s, "local") {
        Some(Locality::Local)
    } else if same(s, "on_prem") {
        Some(Locality::OnPrem)
    } else if same(s, "peer") {
        Some(Locality::Peer)
    } else if same(s, "cloud") {
        Some(Locality::Cloud)
    } else {
        None
    }
}

/// The determinism that a word names.
pub open spec fn determinism_in(s: Seq<char>) -> Option<Determinism> {
    if s == "seeded_deterministic"@ {
        Some(Determinism::SeededDeterministic)
    } else if s == "non_deterministic"@ {
        Some(Determinism::NonDeterministic)
    } else {
        None
    }
}

fn read_determinism(s: &str) -> (r: Option<Determinism>)
    ensures
        r == determinism_in(s@),
{
    if same(s, "seeded_deterministic") {
        Some(Determinism::SeededDeterministic)
    } else if same(s, "non_deterministic") {
        Some(Determinism::NonDeterministic)
    } else {
        None
    }
}

/// A number under a name that is no more than 32 bits wide.
pub open spec fn small_field(v: JsonView, name: Seq<char>) -> Option<u32> {
    match number_field(v, name) {
        Some(n) => if n <= u32::MAX {
            Some(n as u32)
        } else {
            None
        },
        None => None,
    }
}

/// A number under a name that is no more than 32 bits wide.
pub fn small_at(v: &Json, name: &str) -> (r: Option<u32>)
    ensures
        r == small_field(v@, name@),
{
    match v.number_at(name) {
        Some(n) => if n <= u32::MAX as u64 {
            Some(n as u32)
        } else {
            None
        },
        None => None,
    }
}

/// Whether every one of these names a capability.
pub open spec fn are_capabilities(items: Seq<JsonView>) -> bool {
    forall|i: int|
        0 <= i < items.len() ==> word_of(#[trigger] items[i]) is Some && names_capability(
            word_of(items[i])->0,
        )
}

/// Whether a word names a capability.
pub open spec fn names_capability(s: Seq<char>) -> bool {
    s == "generate"@ || s == "plan"@ || s == "judge"@
}

/// Whether one of these is this word.
pub open spec fn has_word(items: Seq<JsonView>, s: Seq<char>) -> bool {
    exists|i: int| 0 <= i < items.len() && word_of(#[trigger] items[i]) == Some(s)
}

/// What an arch can do: an array of words, each of which names a capability.
pub open spec fn capabilities_in(v: JsonView) -> Option<Capabilities> {
    match v {
        JsonView::Array(items) => if are_capabilities(items) {
            Some(
                Capabilities {
                    generate: has_word(items, "generate"@),
                    plan: has_word(items, "plan"@),
                    judge: has_word(items, "judge"@),
                },
            )
        } else {
            None
        },
        _ => None,
    }
}

fn read_capabilities(v: &Json) -> (r: Option<Capabilities>)
    ensures
        r == capabilities_in(v@),
{
    let items = match v {
        Json::Array(items) => items,
        _ => return None,
    };
    let ghost said = v@->Array_0;
    let (mut generate, mut plan, mut judge) = (false, false, false);
    let mut i: usize = 0;
    assert(said.len() == items@.len());
    while i < items.len()
        invariant
            i <= items@.len(),
            v@ == JsonView::Array(said),
            said.len() == items@.len(),
            forall|k: int| 0 <= k < items@.len() ==> #[trigger] said[k] == items@[k]@,
            are_capabilities(said.take(i as int)),
            generate == has_word(said.take(i as int), "generate"@),
            plan == has_word(said.take(i as int), "plan"@),
            judge == has_word(said.take(i as int), "judge"@),
        decreases items@.len() - i,
    {
        let ghost before = said.take(i as int);
        let ghost after = said.take(i + 1);
        assert(after =~= before.push(said[i as int]));
        assert(said[i as int] == items@[i as int]@);
        let word = match read_word(&items[i]) {
            Some(s) => s.as_str(),
            None => return None,
        };
        let (g, p, j) = (same(word, "generate"), same(word, "plan"), same(word, "judge"));
        if !g && !p && !j {
            assert(!names_capability(word_of(said[i as int])->0));
            return None;
        }
        proof {
            one_more_word(before, said[i as int], "generate"@);
            one_more_word(before, said[i as int], "plan"@);
            one_more_word(before, said[i as int], "judge"@);
            assert forall|k: int| 0 <= k < after.len() implies word_of(#[trigger] after[k]) is Some
                && names_capability(word_of(after[k])->0) by {
                if k < i {
                    assert(before[k] == after[k]);
                }
            }
        }
        generate = generate || g;
        plan = plan || p;
        judge = judge || j;
        i += 1;
    }
    assert(said.take(i as int) =~= said);
    Some(Capabilities { generate, plan, judge })
}

/// One more word is there besides those that were.
pub proof fn one_more_word(items: Seq<JsonView>, x: JsonView, s: Seq<char>)
    ensures
        has_word(items.push(x), s) == (has_word(items, s) || word_of(x) == Some(s)),
{
    let more = items.push(x);
    if has_word(items, s) {
        let i = choose|i: int| 0 <= i < items.len() && word_of(#[trigger] items[i]) == Some(s);
        assert(word_of(more[i]) == Some(s));
    }
    if word_of(x) == Some(s) {
        assert(word_of(more[items.len() as int]) == Some(s));
    }
    if has_word(more, s) && word_of(x) != Some(s) {
        let i = choose|i: int| 0 <= i < more.len() && word_of(#[trigger] more[i]) == Some(s);
        assert(word_of(items[i]) == Some(s));
    }
}

/// The names of what a clearance has, in their order.
pub open spec fn clearance_names() -> Seq<Seq<char>> {
    seq!["max_scope"@, "third_party_allowed"@]
}

/// A clearance.
pub open spec fn clearance_in(v: JsonView) -> Option<Clearance> {
    clearance_of(named(v, clearance_names(), 2))
}

/// The clearance that an object is.
pub open spec fn clearance_of(v: JsonView) -> Option<Clearance> {
    match (word_field(v, "max_scope"@), bool_field(v, "third_party_allowed"@)) {
        (Some(s), Some(third_party_allowed)) => match scope_in(s) {
            Some(max_scope) => Some(Clearance { max_scope, third_party_allowed }),
            None => None,
        },
        _ => None,
    }
}

fn read_clearance(v: &Json) -> (r: Option<Clearance>)
    ensures
        r == clearance_in(v@),
{
    if let Json::Array(_) = v {
        let names = vec!["max_scope", "third_party_allowed"];
        assert(all(names@) =~= clearance_names());
        let parts = with_names(v, &names, 2);
        return read_clearance_object(&parts);
    }
    read_clearance_object(v)
}

fn read_clearance_object(v: &Json) -> (r: Option<Clearance>)
    ensures
        r == clearance_of(v@),
{
    match (word_at(v, "max_scope"), v.bool_at("third_party_allowed")) {
        (Some(s), Some(third_party_allowed)) => match read_scope(s.as_str()) {
            Some(max_scope) => Some(Clearance { max_scope, third_party_allowed }),
            None => None,
        },
        _ => None,
    }
}

/// A number that may be left out.
pub open spec fn number_if_there(v: JsonView, name: Seq<char>) -> Result<Option<u64>, ()> {
    let n = field(v, name);
    if left_out(n) {
        Ok(None)
    } else {
        match n->0 {
            JsonView::Unsigned(n) => Ok(Some(n as u64)),
            _ => Err(()),
        }
    }
}

fn read_number_if_there(v: &Json, name: &str) -> (r: Result<Option<u64>, ()>)
    ensures
        r == number_if_there(v@, name@),
{
    match v.get(name) {
        None => Ok(None),
        Some(Json::Null) => Ok(None),
        Some(Json::Unsigned(n)) => Ok(Some(*n)),
        Some(_) => Err(()),
    }
}

/// A number of 32 bits that may be left out.
pub open spec fn small_if_there(v: JsonView, name: Seq<char>) -> Result<Option<u32>, ()> {
    match number_if_there(v, name) {
        Ok(None) => Ok(None),
        Ok(Some(n)) => if n <= u32::MAX {
            Ok(Some(n as u32))
        } else {
            Err(())
        },
        Err(()) => Err(()),
    }
}

fn read_small_if_there(v: &Json, name: &str) -> (r: Result<Option<u32>, ()>)
    ensures
        r == small_if_there(v@, name@),
{
    match read_number_if_there(v, name) {
        Ok(None) => Ok(None),
        Ok(Some(n)) => if n <= u32::MAX as u64 {
            Ok(Some(n as u32))
        } else {
            Err(())
        },
        Err(()) => Err(()),
    }
}

/// A number that may be left out, as it is written: a whole number has a point and a
/// zero.
pub open spec fn real_if_there(v: JsonView, name: Seq<char>) -> Result<Option<Seq<char>>, ()> {
    let n = field(v, name);
    if left_out(n) {
        Ok(None)
    } else {
        match n->0 {
            JsonView::Real(digits) => Ok(Some(digits)),
            JsonView::Unsigned(n) => Ok(Some(decimal(n) + ".0"@)),
            JsonView::Negative(n) => Ok(Some(signed_decimal(n) + ".0"@)),
            _ => Err(()),
        }
    }
}

fn read_real_if_there(v: &Json, name: &str) -> (r: Result<Option<String>, ()>)
    ensures
        match r {
            Ok(t) => real_if_there(v@, name@) == Ok::<Option<Seq<char>>, ()>(opt(t)),
            Err(()) => real_if_there(v@, name@) is Err,
        },
{
    match v.get(name) {
        None => Ok(None),
        Some(Json::Null) => Ok(None),
        Some(Json::Real(s)) => Ok(Some(s.dup())),
        Some(Json::Unsigned(n)) => Ok(Some(cat(decimal_text(*n).as_str(), ".0"))),
        Some(Json::Negative(n)) => Ok(Some(cat(signed_decimal_text(*n).as_str(), ".0"))),
        Some(_) => Err(()),
    }
}

/// The names of what an identity has, in their order.
pub open spec fn identity_names() -> Seq<Seq<char>> {
    seq![
        "weights_sha256"@,
        "engine"@,
        "engine_version"@,
        "backend"@,
        "quant"@,
        "kv_cache"@,
        "threads"@,
        "batch"@,
        "sampling"@,
        "seed"@,
    ]
}

/// The members of the object under a name.
pub open spec fn members_field(v: JsonView, name: Seq<char>) -> Option<
    Seq<(Seq<char>, JsonView)>,
> {
    match field(v, name) {
        Some(JsonView::Object(ms)) => Some(ms),
        _ => None,
    }
}

fn read_members(v: &Json, name: &str) -> (r: Option<Vec<Member>>)
    ensures
        match r {
            Some(ms) => members_field(v@, name@) == Some(members(ms@)),
            None => members_field(v@, name@) is None,
        },
{
    match v.get(name) {
        Some(x) => match x {
            Json::Object(ms) => {
                assert(x@->Object_0 =~= members(ms@));
                Some(copy_members(ms))
            },
            _ => None,
        },
        None => None,
    }
}

/// The identity of an arch.
pub open spec fn identity_in(v: JsonView) -> Option<ArchIdentityView> {
    identity_of(named(v, identity_names(), 10))
}

/// The identity that an object is.
pub open spec fn identity_of(v: JsonView) -> Option<ArchIdentityView> {
    match (
        (
            text_field(v, "weights_sha256"@),
            text_field(v, "engine"@),
            text_field(v, "engine_version"@),
            text_field(v, "backend"@),
            text_field(v, "quant"@),
        ),
        (
            text_field(v, "kv_cache"@),
            small_field(v, "threads"@),
            small_field(v, "batch"@),
            members_field(v, "sampling"@),
            number_if_there(v, "seed"@),
        ),
    ) {
        (
            (Some(weights_sha256), Some(engine), Some(engine_version), Some(backend), Some(quant)),
            (Some(kv_cache), Some(threads), Some(batch), Some(sampling), Ok(seed)),
        ) => Some(
            ArchIdentityView {
                weights_sha256,
                engine,
                engine_version,
                backend,
                quant,
                kv_cache,
                threads,
                batch,
                sampling,
                seed,
            },
        ),
        _ => None,
    }
}

fn read_identity(v: &Json) -> (r: Option<ArchIdentity>)
    ensures
        opt(r) == identity_in(v@),
{
    if let Json::Array(_) = v {
        let names = vec![
            "weights_sha256",
            "engine",
            "engine_version",
            "backend",
            "quant",
            "kv_cache",
            "threads",
            "batch",
            "sampling",
            "seed",
        ];
        assert(all(names@) =~= identity_names());
        let parts = with_names(v, &names, 10);
        return read_identity_object(&parts);
    }
    read_identity_object(v)
}

fn read_identity_object(v: &Json) -> (r: Option<ArchIdentity>)
    ensures
        opt(r) == identity_of(v@),
{
    let seed = match read_number_if_there(v, "seed") {
        Ok(s) => s,
        Err(()) => return None,
    };
    match (
        (
            v.text_at("weights_sha256"),
            v.text_at("engine"),
            v.text_at("engine_version"),
            v.text_at("backend"),
            v.text_at("quant"),
        ),
        (
            v.text_at("kv_cache"),
            small_at(v, "threads"),
            small_at(v, "batch"),
            read_members(v, "sampling"),
        ),
    ) {
        (
            (Some(weights), Some(engine), Some(version), Some(backend), Some(quant)),
            (Some(kv), Some(threads), Some(batch), Some(sampling)),
        ) => Some(
            ArchIdentity {
                weights_sha256: weights.dup(),
                engine: engine.dup(),
                engine_version: version.dup(),
                backend: backend.dup(),
                quant: quant.dup(),
                kv_cache: kv.dup(),
                threads,
                batch,
                sampling,
                seed,
            },
        ),
        _ => None,
    }
}

/// What is under a name, read by `read`.
pub open spec fn read_in<T>(
    v: JsonView,
    name: Seq<char>,
    read: spec_fn(JsonView) -> Option<T>,
) -> Option<T> {
    match field(v, name) {
        Some(x) => read(x),
        None => None,
    }
}

/// What the word under a name means.
pub open spec fn word_in<T>(
    v: JsonView,
    name: Seq<char>,
    read: spec_fn(Seq<char>) -> Option<T>,
) -> Option<T> {
    match word_field(v, name) {
        Some(s) => read(s),
        None => None,
    }
}

/// The names of what a manifest has, in their order.
pub open spec fn manifest_names() -> Seq<Seq<char>> {
    seq![
        "name"@,
        "capabilities"@,
        "locality"@,
        "jurisdiction"@,
        "retention_days"@,
        "cost_per_1k_tokens_eur"@,
        "latency_ms_p50"@,
        "context_ceiling"@,
        "determinism"@,
        "identity"@,
        "clearance"@,
        "governed"@,
    ]
}

/// The manifest of an arch.
pub open spec fn manifest_in(v: JsonView) -> Option<ArchManifestView> {
    manifest_of(named(v, manifest_names(), 12))
}

/// The manifest that an object is.
pub open spec fn manifest_of(v: JsonView) -> Option<ArchManifestView> {
    match (
        (
            text_field(v, "name"@),
            read_in(v, "capabilities"@, |x: JsonView| capabilities_in(x)),
            word_in(v, "locality"@, |s: Seq<char>| locality_in(s)),
            text_field(v, "jurisdiction"@),
            small_if_there(v, "retention_days"@),
            real_if_there(v, "cost_per_1k_tokens_eur"@),
        ),
        (
            small_field(v, "latency_ms_p50"@),
            small_field(v, "context_ceiling"@),
            word_in(v, "determinism"@, |s: Seq<char>| determinism_in(s)),
            read_in(v, "identity"@, |x: JsonView| identity_in(x)),
            read_in(v, "clearance"@, |x: JsonView| clearance_in(x)),
            bool_field(v, "governed"@),
        ),
    ) {
        (
            (
                Some(name),
                Some(capabilities),
                Some(locality),
                Some(jurisdiction),
                Ok(retention_days),
                Ok(cost_per_1k_tokens_eur),
            ),
            (
                Some(latency_ms_p50),
                Some(context_ceiling),
                Some(determinism),
                Some(identity),
                Some(clearance),
                Some(governed),
            ),
        ) => Some(
            ArchManifestView {
                name,
                capabilities,
                locality,
                jurisdiction,
                retention_days,
                cost_per_1k_tokens_eur,
                latency_ms_p50,
                context_ceiling,
                determinism,
                identity,
                clearance,
                governed,
            },
        ),
        _ => None,
    }
}

/// The manifest of an arch, if the value is one.
pub fn read_manifest(v: &Json) -> (r: Option<ArchManifest>)
    ensures
        opt(r) == manifest_in(v@),
{
    if let Json::Array(_) = v {
        let names = vec![
            "name",
            "capabilities",
            "locality",
            "jurisdiction",
            "retention_days",
            "cost_per_1k_tokens_eur",
            "latency_ms_p50",
            "context_ceiling",
            "determinism",
            "identity",
            "clearance",
            "governed",
        ];
        assert(all(names@) =~= manifest_names());
        let parts = with_names(v, &names, 12);
        return read_manifest_object(&parts);
    }
    read_manifest_object(v)
}

fn read_manifest_object(v: &Json) -> (r: Option<ArchManifest>)
    ensures
        opt(r) == manifest_of(v@),
{
    let capabilities = match v.get("capabilities") {
        Some(x) => read_capabilities(x),
        None => None,
    };
    let locality = match word_at(v, "locality") {
        Some(s) => read_locality(s.as_str()),
        None => None,
    };
    let determinism = match word_at(v, "determinism") {
        Some(s) => read_determinism(s.as_str()),
        None => None,
    };
    let identity = match v.get("identity") {
        Some(x) => read_identity(x),
        None => None,
    };
    let clearance = match v.get("clearance") {
        Some(x) => read_clearance(x),
        None => None,
    };
    let retention_days = match read_small_if_there(v, "retention_days") {
        Ok(n) => n,
        Err(()) => return None,
    };
    let cost_per_1k_tokens_eur = match read_real_if_there(v, "cost_per_1k_tokens_eur") {
        Ok(n) => n,
        Err(()) => return None,
    };
    match (
        (v.text_at("name"), capabilities, locality, v.text_at("jurisdiction")),
        (
            small_at(v, "latency_ms_p50"),
            small_at(v, "context_ceiling"),
            determinism,
            identity,
            clearance,
            v.bool_at("governed"),
        ),
    ) {
        (
            (Some(name), Some(capabilities), Some(locality), Some(jurisdiction)),
            (
                Some(latency_ms_p50),
                Some(context_ceiling),
                Some(determinism),
                Some(identity),
                Some(clearance),
                Some(governed),
            ),
        ) => Some(
            ArchManifest {
                name: name.dup(),
                capabilities,
                locality,
                jurisdiction: jurisdiction.dup(),
                retention_days,
                cost_per_1k_tokens_eur,
                latency_ms_p50,
                context_ceiling,
                determinism,
                identity,
                clearance,
                governed,
            },
        ),
        _ => None,
    }
}

} // verus!
