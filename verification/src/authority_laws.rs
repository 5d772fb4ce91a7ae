//! What approvals, leases, stops, devices and gates leave behind: what was asked for, who
//! asked, and nothing else.
use crate::approvals::{
    approval_key, approving, human_approved, lists_approvals, minting, spending, verified_approving,
    MAX_APPROVAL_CHALLENGES,
};
use crate::devices::{
    device_check, key_enrolled, node_key_enrolling, passkey_enrolling, passkey_of, passkey_updating,
    PasskeyRowView,
};
use crate::error::KernelErrorView;
use crate::governance::{automating, exporting, passed, promoting, renewing};
use crate::json::{canonical_hash, field, member, text_field, JsonView};
use crate::kernel::{PendingApproval, PendingApprovalView, KernelView};
use crate::labels::Scope;
use crate::leases::{in_slot, last_fence, leasing};
use crate::outside::{ed25519_accepts, hex_of};
use crate::principal::{ApprovalKind, ApprovalView, CtxView};
use crate::reading_laws::member_is_found;
use crate::stops::{holds, is_stopped, lifted, resuming, stopping};
use crate::store::{GateKind, GateVerdictView, LedgerEventView, ModuleManifestView, StoreView};
use crate::tasks::subject_of;
use crate::text::decimal;
use crate::wire::approval_json;
use vstd::prelude::*;

verus! {

/// A minted challenge names the task it is for and what the task waits with, under the nonce
/// that was drawn, until its time is over. It is open from then on; nothing else of the kernel
/// changes, and no challenge that was not open before is open now.
pub proof fn minted_challenge_names_what_waits<A>(
    k: KernelView<A>,
    ctx: CtxView,
    task_id: Seq<char>,
    ttl_ms: u64,
    nonce: Seq<char>,
)
    ensures
        ({
            let (after, r) = minting(k, ctx, task_id, ttl_ms, nonce);
            let c = r->Ok_0;
            let open = after.approval_challenges;
            &&& r is Ok <==> subject_of(k.store, ctx, task_id) is Ok
            &&& r is Err ==> after == k && r->Err_0 == subject_of(k.store, ctx, task_id)->Err_0
            &&& r is Ok ==> {
                &&& c.resource == "task:"@ + task_id
                &&& c.action_digest == subject_of(k.store, ctx, task_id)->Ok_0
                &&& c.nonce == nonce
                &&& ctx.now_ms + ttl_ms <= u64::MAX ==> c.expires_at_ms == ctx.now_ms + ttl_ms
                &&& ctx.now_ms + ttl_ms > u64::MAX ==> c.expires_at_ms == u64::MAX
                &&& open.contains_key(nonce)
                &&& open[nonce] == (PendingApprovalView { task_id, challenge: c })
                &&& forall|n: Seq<char>|
                    n != nonce && #[trigger] open.contains_key(n) ==> {
                        &&& k.approval_challenges.contains_key(n)
                        &&& open[n] == k.approval_challenges[n]
                        &&& open[n].challenge.expires_at_ms > ctx.now_ms
                    }
                &&& after == (KernelView { approval_challenges: open, ..k })
            }
        }),
{
}

/// While there is room, a challenge that has not run out stays open when another is minted.
pub proof fn open_challenges_stay_while_there_is_room<A>(
    k: KernelView<A>,
    ctx: CtxView,
    task_id: Seq<char>,
    ttl_ms: u64,
    nonce: Seq<char>,
    other: Seq<char>,
)
    requires
        k.approval_challenges.dom().finite(),
        k.approval_challenges.dom().len() < MAX_APPROVAL_CHALLENGES,
        k.approval_challenges.contains_key(other),
        k.approval_challenges[other].challenge.expires_at_ms > ctx.now_ms,
        other != nonce,
    ensures
        minting(k, ctx, task_id, ttl_ms, nonce).0.approval_challenges.contains_key(other),
        minting(k, ctx, task_id, ttl_ms, nonce).0.approval_challenges[other]
            == k.approval_challenges[other],
{
    let open = crate::expiring::live::<PendingApproval>(k.approval_challenges, ctx.now_ms);
    assert(open.dom().subset_of(k.approval_challenges.dom()));
    vstd::set_lib::lemma_len_subset(open.dom(), k.approval_challenges.dom());
}

/// What the record says of an approval can be read off it: the approval itself, and which
/// ceremony verified it.
pub proof fn approval_is_told_in_full(a: ApprovalView, ceremony: Seq<char>)
    ensures
        field(crate::approvals::approval_record(a, ceremony), "approval"@) == Some(approval_json(a)),
        text_field(crate::approvals::approval_record(a, ceremony), "proof"@) == Some(ceremony),
{
    let ms = crate::approvals::approval_record(a, ceremony)->Object_0;
    reveal_strlit("approval");
    reveal_strlit("proof");
    assert(member(ms, "approval"@) == Some(ms[0].1)) by {
        member_is_found(ms, 0);
    }
    assert(member(ms, "proof"@) == Some(ms[1].1)) by {
        assert("approval"@.len() != "proof"@.len());
        member_is_found(ms, 1);
    }
}

/// An approval that was accepted is kept as it was given, beside every other, and is on the
/// record with the ceremony; a human one has spent its challenge. Nothing else changes.
pub proof fn accepted_approval_is_kept<A>(k: KernelView<A>, ctx: CtxView, a: ApprovalView)
    requires
        approving(k, ctx, a).1 is Ok,
    ensures
        ({
            let after = approving(k, ctx, a).0;
            let said = after.store.ledger.last();
            let key = approval_key(a);
            &&& after.store.approvals == k.store.approvals.insert(key, a)
            &&& after.store.ledger == k.store.ledger.push(said)
            &&& said.kind == "approval.recorded"@
            &&& said.wall_ms == ctx.now_ms
            &&& field(said.payload, "approval"@) == Some(approval_json(a))
            &&& text_field(said.payload, "proof"@) == Some("device-key"@)
            &&& a.kind == ApprovalKind::Human ==> after.approval_challenges
                == k.approval_challenges.remove(a.challenge->0.nonce)
            &&& a.kind != ApprovalKind::Human ==> after.approval_challenges == k.approval_challenges
            &&& after == (KernelView {
                approval_challenges: after.approval_challenges,
                store: StoreView {
                    approvals: after.store.approvals,
                    ledger: after.store.ledger,
                    ..k.store
                },
                ..k
            })
        }),
{
    approval_is_told_in_full(a, "device-key"@);
}

/// An approval is accepted exactly when it may be: one that is not a person's always, and a
/// person's when they make the call themselves, answer an open challenge over its subject in
/// time, and sign it with the key of their device.
pub proof fn approval_is_accepted_exactly_when_good<A>(k: KernelView<A>, ctx: CtxView, a: ApprovalView)
    ensures
        a.kind != ApprovalKind::Human ==> approving(k, ctx, a).1 is Ok,
        a.kind == ApprovalKind::Human ==> (approving(k, ctx, a).1 is Ok <==> {
            &&& ctx.principal is Human
            &&& ctx.principal == a.approver
            &&& a.challenge is Some
            &&& spending(k, a.challenge->0, ctx.now_ms).1 is Ok
            &&& a.challenge->0.action_digest == a.subject_hash
            &&& a.signature_hex is Some
            &&& crate::outside::is_hex(a.signature_hex->0)
            &&& crate::outside::unhex(a.signature_hex->0).len() == 64
            &&& k.devices.contains_key(ctx.principal->Human_device_id)
            &&& ed25519_accepts(
                k.devices[ctx.principal->Human_device_id],
                crate::presence::challenge_message(a.challenge->0),
                crate::outside::unhex(a.signature_hex->0),
            )
        }),
{
}

/// A person's challenge is spent whether or not their approval is accepted; nothing else is
/// touched where it is not.
pub proof fn presented_challenge_is_spent<A>(k: KernelView<A>, ctx: CtxView, a: ApprovalView)
    requires
        a.kind == ApprovalKind::Human,
        a.challenge is Some,
    ensures
        !approving(k, ctx, a).0.approval_challenges.contains_key(a.challenge->0.nonce),
        approving(k, ctx, a).1 is Err ==> approving(k, ctx, a).0 == (KernelView {
            approval_challenges: k.approval_challenges.remove(a.challenge->0.nonce),
            ..k
        }),
{
    if !k.approval_challenges.contains_key(a.challenge->0.nonce) {
        assert(k.approval_challenges.remove(a.challenge->0.nonce) =~= k.approval_challenges);
    }
}

/// Two approvals of one subject are kept under one key only where they are written alike, as
/// far as their hash tells.
pub proof fn approvals_are_kept_apart(a: ApprovalView, b: ApprovalView)
    requires
        a.subject_hash == b.subject_hash,
        approval_key(a) == approval_key(b),
    ensures
        canonical_hash(approval_json(a)) == canonical_hash(approval_json(b)),
{
    let head = a.subject_hash + ":"@;
    assert(approval_key(a).skip(head.len() as int) =~= canonical_hash(approval_json(a)));
    assert(approval_key(b).skip(head.len() as int) =~= canonical_hash(approval_json(b)));
}

/// A subject is approved by a person exactly when some approval that is kept names it and is a
/// person's; a test or an audit is none.
pub proof fn person_has_approved_when_it_is_kept(s: StoreView, subject: Seq<char>)
    ensures
        human_approved(s, subject) <==> exists|key: Seq<char>| #[trigger]
            s.approvals.contains_key(key) && s.approvals[key].subject_hash == subject
                && s.approvals[key].kind == ApprovalKind::Human,
{
    if human_approved(s, subject) {
        let key = choose|key: Seq<char>| #[trigger]
            s.approvals.contains_key(key) && crate::approvals::approves(s.approvals[key], subject)
                && s.approvals[key].kind == ApprovalKind::Human;
        assert(s.approvals[key].subject_hash == subject);
    }
    if exists|key: Seq<char>| #[trigger]
        s.approvals.contains_key(key) && s.approvals[key].subject_hash == subject
            && s.approvals[key].kind == ApprovalKind::Human {
        let key = choose|key: Seq<char>| #[trigger]
            s.approvals.contains_key(key) && s.approvals[key].subject_hash == subject
                && s.approvals[key].kind == ApprovalKind::Human;
        assert(crate::approvals::approves(s.approvals[key], subject));
    }
}

/// The approvals that are found for a subject are those that name it, all of them.
pub proof fn found_approvals_name_the_subject(
    s: StoreView,
    subject: Seq<char>,
    found: Seq<ApprovalView>,
    key: Seq<char>,
    i: int,
)
    requires
        lists_approvals(s, subject, found),
    ensures
        s.approvals.contains_key(key) && s.approvals[key].subject_hash == subject ==> found.contains(
            s.approvals[key],
        ),
        0 <= i < found.len() ==> found[i].subject_hash == subject,
{
    if 0 <= i < found.len() {
        assert(crate::approvals::approves(found[i], subject));
    }
    if s.approvals.contains_key(key) && s.approvals[key].subject_hash == subject {
        assert(crate::approvals::approves(s.approvals[key], subject));
    }
}

/// An approval that this process verified itself is accepted exactly when it is a person's,
/// carries a signature, and answers an open challenge over its own subject in time; it is then
/// kept and on the record, under the ceremony that verified it. A refusal keeps nothing.
pub proof fn verified_approval_is_kept<A>(
    k: KernelView<A>,
    now: u64,
    a: ApprovalView,
    ceremony: Seq<char>,
)
    ensures
        ({
            let (after, r) = verified_approving(k, now, a, ceremony);
            let said = after.store.ledger.last();
            &&& r is Ok <==> {
                &&& a.kind == ApprovalKind::Human
                &&& a.approver is Human
                &&& a.challenge is Some
                &&& a.signature_hex is Some
                &&& a.signature_hex->0.len() > 0
                &&& a.challenge->0.action_digest == a.subject_hash
                &&& spending(k, a.challenge->0, now).1 is Ok
            }
            &&& r is Err ==> after.store == k.store && r->Err_0 is I1
            &&& r is Ok ==> {
                &&& after.store.approvals == k.store.approvals.insert(approval_key(a), a)
                &&& after.store.ledger == k.store.ledger.push(said)
                &&& said.kind == "approval.recorded"@
                &&& said.wall_ms == now
                &&& field(said.payload, "approval"@) == Some(approval_json(a))
                &&& text_field(said.payload, "proof"@) == Some(ceremony)
                &&& after.approval_challenges == k.approval_challenges.remove(a.challenge->0.nonce)
                &&& human_approved(after.store, a.subject_hash)
            }
        }),
{
    approval_is_told_in_full(a, ceremony);
    let (after, r) = verified_approving(k, now, a, ceremony);
    if r is Ok {
        assert(after.store.approvals.contains_key(approval_key(a)));
        assert(crate::approvals::approves(after.store.approvals[approval_key(a)], a.subject_hash));
    }
}

/// A lease that is granted is as it was asked for: of the resource, to who asked, in their
/// partition, from now until its time is over, under the next fence of the resource. It is in
/// force and kept at once, in place of every earlier lease of the resource in that partition
/// and of no other; the record names it.
pub proof fn granted_lease_is_as_asked<A>(
    k: KernelView<A>,
    ctx: CtxView,
    resource: Seq<char>,
    ttl_ms: u64,
    other: Seq<char>,
)
    requires
        leasing(k, ctx, resource, ttl_ms).1 is Ok,
    ensures
        ({
            let (after, r) = leasing(k, ctx, resource, ttl_ms);
            let l = r->Ok_0;
            let said = after.store.ledger.last();
            &&& l.resource == resource
            &&& l.holder == ctx.principal
            &&& l.partition == ctx.partition
            &&& l.granted_at_ms == ctx.now_ms
            &&& ctx.now_ms + ttl_ms <= u64::MAX ==> l.expires_at_ms == ctx.now_ms + ttl_ms
            &&& ctx.now_ms + ttl_ms > u64::MAX ==> l.expires_at_ms == u64::MAX
            &&& l.fence == (if k.home.contains_key(resource) {
                k.home[resource]
            } else {
                0
            }) + 1
            &&& l.id == "lease-"@ + resource + "-"@ + decimal(l.fence as nat)
            &&& after.locks.contains_key(l.id) && after.locks[l.id] == l
            &&& after.store.leases.contains_key(l.id) && after.store.leases[l.id] == l
            &&& after.home == k.home.insert(resource, l.fence)
            &&& after.store.fences == k.store.fences.insert(resource, l.fence)
            &&& other != l.id ==> {
                &&& after.locks.contains_key(other) <==> k.locks.contains_key(other) && !(
                k.locks[other].resource == resource && k.locks[other].partition == ctx.partition)
                &&& after.locks.contains_key(other) ==> after.locks[other] == k.locks[other]
                &&& after.store.leases.contains_key(other) <==> k.store.leases.contains_key(other) && !(
                k.store.leases[other].resource == resource && k.store.leases[other].partition
                    == ctx.partition)
                &&& after.store.leases.contains_key(other) ==> after.store.leases[other]
                    == k.store.leases[other]
            }
            &&& after.store.ledger == k.store.ledger.push(
                LedgerEventView {
                    kind: "lease.granted"@,
                    wall_ms: ctx.now_ms,
                    payload: JsonView::Text(l.id),
                },
            )
            &&& after == (KernelView {
                locks: after.locks,
                home: after.home,
                store: StoreView {
                    leases: after.store.leases,
                    fences: after.store.fences,
                    ledger: after.store.ledger,
                    ..k.store
                },
                ..k
            })
        }),
{
}

/// A lease is refused exactly while another holds the resource in that partition, or when the
/// resource has no fence left; and a refusal leaves no trace.
pub proof fn lease_is_refused_while_held<A>(
    k: KernelView<A>,
    ctx: CtxView,
    resource: Seq<char>,
    ttl_ms: u64,
)
    ensures
        leasing(k, ctx, resource, ttl_ms).1 is Err ==> leasing(k, ctx, resource, ttl_ms).0 == k
            && leasing(k, ctx, resource, ttl_ms).1->Err_0 is Lock,
        leasing(k, ctx, resource, ttl_ms).1 is Err <==> (exists|id: Seq<char>|
            {
                &&& #[trigger] k.locks.contains_key(id)
                &&& k.locks[id].resource == resource
                &&& k.locks[id].partition == ctx.partition
                &&& ctx.now_ms < k.locks[id].expires_at_ms
                &&& k.locks[id].holder != ctx.principal
            }) || k.home.contains_key(resource) && k.home[resource] == u64::MAX,
{
    let held = crate::leases::held_by_other(
        k.locks,
        resource,
        ctx.partition,
        ctx.principal,
        ctx.now_ms,
    );
    if held {
        let id = choose|id: Seq<char>| #[trigger]
            k.locks.contains_key(id) && crate::leases::keeps_out(
                k.locks[id],
                resource,
                ctx.partition,
                ctx.principal,
                ctx.now_ms,
            );
        assert(in_slot(k.locks[id], resource, ctx.partition));
    }
    if exists|id: Seq<char>|
        {
            &&& #[trigger] k.locks.contains_key(id)
            &&& k.locks[id].resource == resource
            &&& k.locks[id].partition == ctx.partition
            &&& ctx.now_ms < k.locks[id].expires_at_ms
            &&& k.locks[id].holder != ctx.principal
        } {
        let id = choose|id: Seq<char>|
            {
                &&& #[trigger] k.locks.contains_key(id)
                &&& k.locks[id].resource == resource
                &&& k.locks[id].partition == ctx.partition
                &&& ctx.now_ms < k.locks[id].expires_at_ms
                &&& k.locks[id].holder != ctx.principal
            };
        assert(crate::leases::keeps_out(
            k.locks[id],
            resource,
            ctx.partition,
            ctx.principal,
            ctx.now_ms,
        ));
    }
    assert(last_fence(k.home, resource) == u64::MAX <==> k.home.contains_key(resource)
        && k.home[resource] == u64::MAX);
}

/// A stop says who stopped what and when, is kept and on the record at once, and stops that
/// scope and no other.
pub proof fn stop_is_of_one_scope<A>(
    k: KernelView<A>,
    ctx: CtxView,
    scope: Seq<char>,
    other: Seq<char>,
)
    requires
        crate::kernel::sound(k),
        stopping(k, ctx, scope).1 is Ok,
    ensures
        ({
            let (after, r) = stopping(k, ctx, scope);
            let id = r->Ok_0;
            let e = after.stops[id];
            &&& e.id == id
            &&& e.scope == scope
            &&& e.issuer == ctx.principal
            &&& e.hlc_ms == ctx.now_ms
            &&& !k.stops.contains_key(id)
            &&& after.stops == k.stops.insert(id, e)
            &&& after.store.stops == k.store.stops.insert(id, e)
            &&& after.store.counter == k.store.counter + 1
            &&& after.store.ledger == k.store.ledger.push(
                LedgerEventView {
                    kind: "stop"@,
                    wall_ms: ctx.now_ms,
                    payload: JsonView::Text(id),
                },
            )
            &&& is_stopped(after, scope)
            &&& other != scope ==> is_stopped(after, other) == is_stopped(k, other)
            &&& after == (KernelView {
                stops: after.stops,
                store: StoreView {
                    counter: after.store.counter,
                    stops: after.store.stops,
                    ledger: after.store.ledger,
                    ..k.store
                },
                ..k
            })
        }),
{
    let (after, r) = stopping(k, ctx, scope);
    let id = r->Ok_0;
    crate::stops::person_always_stops(k, ctx, scope);
    assert(!k.stops.contains_key(
        crate::kernel::id_text("stop"@, k.node_id, (k.store.counter + 1) as nat),
    ));
    assert forall|s: Seq<char>| lifted(after, s) == lifted(k, s) by {
        if lifted(after, s) {
            let r = choose|r: Seq<char>| #[trigger]
                after.resumes.contains_key(r) && after.resumes[r].cites == s;
            assert(k.resumes.contains_key(r) && k.resumes[r].cites == s);
        }
        if lifted(k, s) {
            let r = choose|r: Seq<char>| #[trigger]
                k.resumes.contains_key(r) && k.resumes[r].cites == s;
            assert(after.resumes.contains_key(r) && after.resumes[r].cites == s);
        }
    }
    if other != scope {
        if is_stopped(after, other) {
            let s = choose|s: Seq<char>| #[trigger] holds(after, s, other);
            assert(s != id);
            assert(holds(k, s, other));
        }
        if is_stopped(k, other) {
            let s = choose|s: Seq<char>| #[trigger] holds(k, s, other);
            assert(holds(after, s, other));
        }
    }
}

/// A resume is a person's, of a stop that was made, and says who lifted what and when; it is
/// kept and on the record, and every stop stays on the books.
pub proof fn resume_says_who_lifted_what<A>(k: KernelView<A>, ctx: CtxView, stop_id: Seq<char>)
    ensures
        ({
            let (after, r) = resuming(k, ctx, stop_id);
            let id = crate::kernel::id_text("resume"@, k.node_id, (k.store.counter + 1) as nat);
            let e = after.resumes[id];
            &&& r is Ok <==> ctx.principal is Human && k.stops.contains_key(stop_id)
                && k.store.counter < u64::MAX
            &&& ctx.principal is Human && !k.stops.contains_key(stop_id) ==> r->Err_0 is Stop
            &&& !(ctx.principal is Human) ==> r->Err_0 is I1
            &&& r is Ok ==> {
                &&& e.id == id
                &&& e.cites == stop_id
                &&& e.issuer == ctx.principal
                &&& e.hlc_ms == ctx.now_ms
                &&& after.resumes == k.resumes.insert(id, e)
                &&& after.store.resumes == k.store.resumes.insert(id, e)
                &&& after.stops == k.stops
                &&& after.store.counter == k.store.counter + 1
                &&& after.store.ledger == k.store.ledger.push(
                    LedgerEventView {
                        kind: "resume"@,
                        wall_ms: ctx.now_ms,
                        payload: JsonView::Text(stop_id),
                    },
                )
                &&& after == (KernelView {
                    resumes: after.resumes,
                    store: StoreView {
                        counter: after.store.counter,
                        resumes: after.store.resumes,
                        ledger: after.store.ledger,
                        ..k.store
                    },
                    ..k
                })
            }
        }),
{
}

/// A scope is stopped exactly when some stop of it was made that no resume cites.
pub proof fn stopped_until_the_stop_is_cited<A>(k: KernelView<A>, scope: Seq<char>)
    ensures
        is_stopped(k, scope) <==> exists|id: Seq<char>|
            #[trigger] k.stops.contains_key(id) && k.stops[id].scope == scope && forall|r: Seq<char>|
                #[trigger] k.resumes.contains_key(r) ==> k.resumes[r].cites != id,
{
    if is_stopped(k, scope) {
        let id = choose|id: Seq<char>| #[trigger] holds(k, id, scope);
        assert(k.stops.contains_key(id) && k.stops[id].scope == scope);
        assert(!lifted(k, id));
    }
    if exists|id: Seq<char>|
        #[trigger] k.stops.contains_key(id) && k.stops[id].scope == scope && forall|r: Seq<char>|
            #[trigger] k.resumes.contains_key(r) ==> k.resumes[r].cites != id {
        let id = choose|id: Seq<char>|
            #[trigger] k.stops.contains_key(id) && k.stops[id].scope == scope && forall|r: Seq<char>|
                #[trigger] k.resumes.contains_key(r) ==> k.resumes[r].cites != id;
        assert(!lifted(k, id));
        assert(holds(k, id, scope));
    }
}

/// A device speaks with the key it was enrolled with: a signature counts exactly when the
/// device is enrolled and its key accepts it.
pub proof fn signature_counts_under_the_devices_key(
    devices: Map<Seq<char>, Seq<u8>>,
    id: Seq<char>,
    message: Seq<u8>,
    signature: Seq<u8>,
)
    ensures
        device_check(devices, id, message, signature) is Ok <==> devices.contains_key(id)
            && ed25519_accepts(devices[id], message, signature),
{
}

/// An enrolled key can be checked at once and is kept in full trust, from now on; the record
/// names the device, and no other device is touched.
pub proof fn enrolled_key_is_kept<A>(k: KernelView<A>, id: Seq<char>, vk: Seq<u8>, now: u64)
    ensures
        ({
            let after = key_enrolled(k, id, vk, now);
            let row = after.store.devices[id];
            &&& after.devices == k.devices.insert(id, vk)
            &&& after.store.devices == k.store.devices.insert(id, row)
            &&& row.vk_hex == hex_of(vk)
            &&& row.trust_class == "full"@
            &&& row.passkey is None
            &&& row.enrolled_ms == now
            &&& after.store.ledger == k.store.ledger.push(
                LedgerEventView {
                    kind: "device.enrolled"@,
                    wall_ms: now,
                    payload: JsonView::Text(id),
                },
            )
            &&& after == (KernelView {
                devices: after.devices,
                store: StoreView {
                    devices: after.store.devices,
                    ledger: after.store.ledger,
                    ..k.store
                },
                ..k
            })
        }),
{
}

/// The key of a node is enrolled under the node's own id, where none is yet.
pub proof fn node_key_is_enrolled_under_the_node<A>(k: KernelView<A>, vk: Seq<u8>, now: u64)
    ensures
        ({
            let (after, r) = node_key_enrolling(k, vk, now);
            let id = "node:"@ + k.node_id;
            &&& !k.store.devices.contains_key(id) ==> r is Ok && after == key_enrolled(k, id, vk, now)
            &&& k.store.devices.contains_key(id) ==> after == k && (r is Ok
                <==> k.store.devices[id].vk_hex == hex_of(vk))
            &&& r is Err ==> r->Err_0 is I1
        }),
{
}

/// A passkey is enrolled exactly under an id of its own that nobody has; it is kept with its
/// credential, opens no signature key, and the record names it.
pub proof fn enrolled_passkey_is_kept<A>(
    k: KernelView<A>,
    id: Seq<char>,
    credential: JsonView,
    now: u64,
)
    ensures
        ({
            let (after, r) = passkey_enrolling(k, id, credential, now);
            let row = after.store.devices[id];
            let prefix = "passkey:"@;
            &&& r is Ok <==> id.len() > prefix.len() && id.take(prefix.len() as int) == prefix
                && !k.store.devices.contains_key(id)
            &&& r is Err ==> after == k && r->Err_0 is I1
            &&& r is Ok ==> {
                &&& row.trust_class == "passkey"@
                &&& row.passkey == Some(credential)
                &&& row.enrolled_ms == now
                &&& row.vk_hex.len() == 0
                &&& after.devices == k.devices
                &&& after.store.devices == k.store.devices.insert(id, row)
                &&& after.store.ledger == k.store.ledger.push(
                    LedgerEventView {
                        kind: "device.enrolled"@,
                        wall_ms: now,
                        payload: JsonView::Text(id),
                    },
                )
                &&& after == (KernelView {
                    store: StoreView {
                        devices: after.store.devices,
                        ledger: after.store.ledger,
                        ..k.store
                    },
                    ..k
                })
            }
        }),
{
    let prefix = "passkey:"@;
    assert(id.len() >= prefix.len() ==> id.take(prefix.len() as int) =~= id.subrange(
        0,
        prefix.len() as int,
    ));
}

/// A passkey's credential is replaced and nothing else of it: when it was enrolled stays. What
/// is no passkey is not found.
pub proof fn updated_passkey_keeps_the_rest<A>(k: KernelView<A>, id: Seq<char>, credential: JsonView)
    ensures
        ({
            let (after, r) = passkey_updating(k, id, credential);
            let was = k.store.devices[id];
            let row = after.store.devices[id];
            let there = k.store.devices.contains_key(id) && was.trust_class == "passkey"@;
            &&& r is Ok <==> there
            &&& !there ==> after == k && r->Err_0 is NotFound
            &&& there ==> {
                &&& row.passkey == Some(credential)
                &&& row.enrolled_ms == was.enrolled_ms
                &&& row.trust_class == was.trust_class
                &&& row.vk_hex == was.vk_hex
                &&& after == (KernelView {
                    store: StoreView {
                        devices: k.store.devices.insert(id, row),
                        ..k.store
                    },
                    ..k
                })
                &&& passkey_of(after.store, id) == Some(
                    PasskeyRowView { device_id: id, credential, enrolled_ms: was.enrolled_ms },
                )
            }
        }),
{
}

/// A business is attended to by whoever renewed its lease, until that expires, and no other
/// business is.
pub proof fn renewal_is_of_one_business<A>(
    k: KernelView<A>,
    business: Seq<char>,
    device: Seq<char>,
    expires_at_ms: u64,
)
    ensures
        ({
            let after = renewing(k, business, device, expires_at_ms);
            let row = after.store.liveness[business];
            &&& row.business == business
            &&& row.renewed_by_device == device
            &&& row.expires_at_ms == expires_at_ms
            &&& after == (KernelView {
                store: StoreView {
                    liveness: k.store.liveness.insert(business, row),
                    ..k.store
                },
                ..k
            })
        }),
{
}

/// An automation that ran is on the record with its business and its module, once; what a
/// person starts is none, and what may not run leaves no trace and says why not.
pub proof fn automation_that_ran_is_on_the_record<A>(
    k: KernelView<A>,
    ctx: CtxView,
    business: Seq<char>,
    module: Seq<char>,
)
    ensures
        ({
            let (after, r) = automating(k, ctx, business, module);
            let stopped = is_stopped(k, "business:"@ + business);
            let live = k.store.liveness.contains_key(business) && ctx.now_ms
                < k.store.liveness[business].expires_at_ms;
            &&& ctx.principal is Human ==> r is Ok && after == k
            &&& !(ctx.principal is Human) ==> {
                &&& r is Ok <==> live && !stopped
                &&& stopped ==> r == Err::<(), KernelErrorView>(
                    KernelErrorView::Stopped("business:"@ + business),
                )
                &&& !stopped && !live ==> r->Err_0 is I4
                &&& r is Err ==> after == k
                &&& r is Ok ==> after == (KernelView {
                    store: StoreView {
                        ledger: k.store.ledger.push(
                            LedgerEventView {
                                kind: "automation.ran"@,
                                wall_ms: ctx.now_ms,
                                payload: JsonView::Array(
                                    seq![JsonView::Text(business), JsonView::Text(module)],
                                ),
                            },
                        ),
                        ..k.store
                    },
                    ..k
                })
            }
        }),
{
}

/// A module is promoted exactly when it was found valid, its gate let it pass, and a person
/// approved it or its profile does without one; it is then hot under its own hash, and the
/// record names that.
pub proof fn promoted_exactly_when_it_may_be<A>(
    k: KernelView<A>,
    ctx: CtxView,
    m: ModuleManifestView,
    checked: Result<(), Seq<char>>,
    vs: Seq<GateVerdictView>,
)
    ensures
        ({
            let (after, r) = promoting(k, ctx, m, checked, vs);
            let gated = exists|i: int|
                0 <= i < vs.len() && (#[trigger] vs[i]).gate == GateKind::AnnexIii && vs[i].pass
                    && vs[i].subject_hash == m.content_hash;
            let approved = m.auto_approve_allowed == Some(true) || human_approved(
                k.store,
                m.content_hash,
            );
            &&& r is Ok <==> checked is Ok && gated && approved
            &&& checked is Ok && !gated ==> r->Err_0 is Gate
            &&& checked is Ok && gated && !approved ==> r->Err_0 is I1
            &&& checked matches Err(why) ==> r == Err::<(), KernelErrorView>(
                KernelErrorView::Module(why),
            )
            &&& r is Ok ==> after == (KernelView {
                store: StoreView {
                    hot: k.store.hot.insert(m.content_hash, m),
                    ledger: k.store.ledger.push(
                        LedgerEventView {
                            kind: "module.promoted"@,
                            wall_ms: ctx.now_ms,
                            payload: JsonView::Text(m.content_hash),
                        },
                    ),
                    ..k.store
                },
                ..k
            })
        }),
{
    gate_lets_pass(vs, GateKind::AnnexIii, m.content_hash);
}

proof fn gate_lets_pass(vs: Seq<GateVerdictView>, gate: GateKind, subject: Seq<char>)
    ensures
        passed(vs, gate, subject) <==> exists|i: int|
            0 <= i < vs.len() && (#[trigger] vs[i]).gate == gate && vs[i].pass && vs[i].subject_hash
                == subject,
{
    if passed(vs, gate, subject) {
        let i = choose|i: int|
            0 <= i < vs.len() && (#[trigger] vs[i]).gate == gate && vs[i].subject_hash == subject
                && vs[i].pass;
        assert(vs[i].gate == gate);
    }
}

/// A module leaves the business only with the verdict of the declassification gate over its
/// own hash; within the business it needs none. What was exported is on the record with where
/// to, and a refusal leaves no trace.
pub proof fn export_out_of_the_business_is_declassified<A>(
    k: KernelView<A>,
    ctx: CtxView,
    module_hash: Seq<char>,
    to_scope: Scope,
    vs: Seq<GateVerdictView>,
)
    ensures
        ({
            let (after, r) = exporting(k, ctx, module_hash, to_scope, vs);
            let leaves = to_scope == Scope::Public || to_scope == Scope::Vertical;
            let gated = exists|i: int|
                0 <= i < vs.len() && (#[trigger] vs[i]).gate == GateKind::Declassification
                    && vs[i].pass && vs[i].subject_hash == module_hash;
            &&& r is Ok <==> (leaves ==> gated)
            &&& r is Err ==> after == k && r->Err_0 is Gate
            &&& r is Ok ==> {
                let said = after.store.ledger.last();
                &&& said.kind == "module.exported"@
                &&& said.wall_ms == ctx.now_ms
                &&& said.payload is Array
                &&& said.payload->Array_0.len() == 2
                &&& said.payload->Array_0[0] == JsonView::Text(module_hash)
                &&& said.payload->Array_0[1] == JsonView::Text(
                    match to_scope {
                        Scope::Public => "public"@,
                        Scope::Vertical => "vertical"@,
                        Scope::Business => "business"@,
                        Scope::Personal => "personal"@,
                        Scope::Holdout => "holdout"@,
                    },
                )
                &&& after == (KernelView {
                    store: StoreView { ledger: k.store.ledger.push(said), ..k.store },
                    ..k
                })
            }
        }),
{
    gate_lets_pass(vs, GateKind::Declassification, module_hash);
}

/// The challenges that are listed as open are those that have not run out, all of them and no
/// other, the one that ends first before the others.
pub proof fn open_challenges_are_listed_by_their_end<A>(
    k: KernelView<A>,
    now_ms: u64,
    list: Seq<PendingApprovalView>,
    nonce: Seq<char>,
)
    requires
        crate::approvals::lists_pending(k, now_ms, list),
    ensures
        k.approval_challenges.contains_key(nonce)
            && k.approval_challenges[nonce].challenge.expires_at_ms > now_ms ==> list.contains(
            k.approval_challenges[nonce],
        ),
        forall|i: int|
            0 <= i < list.len() ==> (#[trigger] list[i]).challenge.expires_at_ms > now_ms,
        forall|i: int, j: int|
            #![trigger list[i], list[j]]
            0 <= i < j < list.len() ==> list[i].challenge.expires_at_ms
                <= list[j].challenge.expires_at_ms,
{
    let nonces = choose|nonces: Seq<Seq<char>>| #[trigger]
        crate::approvals::open_nonces(k, now_ms, nonces) && list == nonces.map_values(
            |n: Seq<char>| k.approval_challenges[n],
        );
    let open = crate::expiring::live::<PendingApproval>(k.approval_challenges, now_ms);
    if open.contains_key(nonce) {
        assert(nonces.contains(nonce));
        let i = choose|i: int| 0 <= i < nonces.len() && nonces[i] == nonce;
        assert(list[i] == k.approval_challenges[nonce]);
    }
    assert forall|i: int| 0 <= i < list.len() implies (#[trigger] list[i]).challenge.expires_at_ms
        > now_ms by {
        assert(nonces.contains(nonces[i]));
        assert(open.contains_key(nonces[i]));
        assert(list[i] == k.approval_challenges[nonces[i]]);
    }
    assert forall|i: int, j: int|
        #![trigger list[i], list[j]]
        0 <= i < j < list.len() implies list[i].challenge.expires_at_ms
        <= list[j].challenge.expires_at_ms by {
        assert(list[i] == k.approval_challenges[nonces[i]]);
        assert(list[j] == k.approval_challenges[nonces[j]]);
    }
}

/// Where there is no room for another challenge, the one that makes room is the one that ends
/// first, and no other that has not run out leaves.
pub proof fn soonest_challenge_makes_room<A>(
    k: KernelView<A>,
    ctx: CtxView,
    task_id: Seq<char>,
    ttl_ms: u64,
    nonce: Seq<char>,
    gone: Seq<char>,
    other: Seq<char>,
)
    requires
        k.approval_challenges.dom().finite(),
        k.approval_challenges.contains_key(gone),
        k.approval_challenges[gone].challenge.expires_at_ms > ctx.now_ms,
        !minting(k, ctx, task_id, ttl_ms, nonce).0.approval_challenges.contains_key(gone),
        k.approval_challenges.contains_key(other),
        k.approval_challenges[other].challenge.expires_at_ms > ctx.now_ms,
        other != gone,
        other != nonce,
    ensures
        minting(k, ctx, task_id, ttl_ms, nonce).0.approval_challenges.contains_key(other),
        k.approval_challenges[gone].challenge.expires_at_ms
            <= k.approval_challenges[other].challenge.expires_at_ms,
{
    let open = crate::expiring::live::<PendingApproval>(k.approval_challenges, ctx.now_ms);
    assert(open.dom().subset_of(k.approval_challenges.dom()));
    vstd::set_lib::lemma_set_subset_finite(k.approval_challenges.dom(), open.dom());
    assert(open.dom().contains(gone));
    crate::expiring::some_row_is_soonest::<PendingApproval>(open, open.dom().len());
    assert(open.contains_key(other));
}

/// An approval is kept under what it approves, and the address of an artefact is over what it is
/// of and its bytes: what differs in either is not under the same text.
pub proof fn addresses_are_over_what_they_name(
    a: ApprovalView,
    task_id: Seq<char>,
    bytes: Seq<u8>,
)
    ensures
        crate::text::begins(approval_key(a), a.subject_hash + ":"@),
        approval_key(a).skip((a.subject_hash.len() + 1) as int) == canonical_hash(approval_json(a)),
        crate::artefacts::address(crate::artefacts::task_subject(task_id), bytes)
            == crate::hash::hash_of(
            vstd::utf8::encode_utf8("task:"@ + task_id) + seq![0u8] + bytes,
        ),
{
    reveal_strlit(":");
    let head = a.subject_hash + ":"@;
    assert(approval_key(a).subrange(0, head.len() as int) =~= head);
    assert(approval_key(a).skip((a.subject_hash.len() + 1) as int) =~= canonical_hash(approval_json(a)));
    let subject = vstd::utf8::encode_utf8("task:"@ + task_id);
    assert(subject.push(0u8) + bytes =~= subject + seq![0u8] + bytes);
}

} // verus!
