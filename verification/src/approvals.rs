//! Approvals: a person approves one subject by answering, once, a challenge that
//! this node minted for it.
use crate::devices::device_check;
use crate::error::{KernelError, KernelErrorView};
use crate::expiring::{live, make_room, room_keeps_the_bound, with_room, Expiring};
use crate::json::{canonical_hash, hash_canonical, Fields, JsonView};
use crate::kernel::{
    outcome, sound_without_the_rest, with_event, KernelView, PendingApproval, PendingApprovalView,
    RealKernel,
};
use crate::leases::capped_sum;
use crate::model::{all, opt, Duplicate, Same};
use crate::outside::{ed25519_accepts, fresh_key_text, hex_decode, is_hex, is_key_text, unhex};
use crate::presence::{array_of_64, challenge_message};
use crate::principal::{
    Approval, ApprovalKind, ApprovalView, Challenge, ChallengeView, Ctx, CtxView, PrincipalView,
};
use crate::principal::Principal;
use crate::stops::done;
use crate::store::StoreView;
use crate::tasks::subject_of;
use crate::text::{before, cat, cat3, same};
use crate::wire::{approval_json, approval_to_json};
use vstd::prelude::*;

verus! {

/// How long a minted challenge can be answered.
pub const APPROVAL_CHALLENGE_TTL_MS: u64 = 120_000;

/// How many challenges are open at most.
pub const MAX_APPROVAL_CHALLENGES: usize = 256;

impl Expiring for PendingApproval {
    open spec fn expiry(v: PendingApprovalView) -> u64 {
        v.challenge.expires_at_ms
    }

    fn expires_at(&self) -> (n: u64) {
        self.challenge.expires_at_ms
    }
}

/// Minting a challenge with this nonce: for a task that waits at its approve step,
/// over the subject it waits with.
pub open spec fn minting<A>(
    k: KernelView<A>,
    ctx: CtxView,
    task_id: Seq<char>,
    ttl_ms: u64,
    nonce: Seq<char>,
) -> (KernelView<A>, Result<ChallengeView, KernelErrorView>) {
    match subject_of(k.store, ctx, task_id) {
        Err(e) => (k, Err(e)),
        Ok(subject) => {
            let challenge = ChallengeView {
                resource: "task:"@ + task_id,
                action_digest: subject,
                nonce,
                expires_at_ms: capped_sum(ctx.now_ms, ttl_ms),
            };
            let open = with_room::<PendingApproval>(
                k.approval_challenges,
                ctx.now_ms,
                MAX_APPROVAL_CHALLENGES as nat,
            );
            (
                KernelView {
                    approval_challenges: open.insert(
                        nonce,
                        PendingApprovalView { task_id, challenge },
                    ),
                    ..k
                },
                Ok(challenge),
            )
        },
    }
}

/// Spending a challenge: its nonce is gone whatever comes of it, and it is worth
/// the task it was minted for only when it is, field for field, the one that was
/// minted, and has not run out.
pub open spec fn spending<A>(k: KernelView<A>, presented: ChallengeView, now_ms: u64) -> (
    KernelView<A>,
    Result<Seq<char>, KernelErrorView>,
) {
    if !k.approval_challenges.contains_key(presented.nonce) {
        (
            k,
            Err(
                KernelErrorView::I1(
                    "approval challenge was not minted by this node, or was already spent"@,
                ),
            ),
        )
    } else {
        let minted = k.approval_challenges[presented.nonce];
        let spent = KernelView {
            approval_challenges: k.approval_challenges.remove(presented.nonce),
            ..k
        };
        if minted.challenge != presented {
            (
                spent,
                Err(
                    KernelErrorView::I1(
                        "approval challenge is not the one this node minted for that nonce"@,
                    ),
                ),
            )
        } else if now_ms >= presented.expires_at_ms {
            (spent, Err(KernelErrorView::I1("approval challenge expired"@)))
        } else {
            (spent, Ok(minted.task_id))
        }
    }
}

/// What the record commits to of an approval: the approval, and which ceremony
/// verified it.
pub open spec fn approval_record(a: ApprovalView, proof_kind: Seq<char>) -> JsonView {
    JsonView::Object(
        seq![("approval"@, approval_json(a)), ("proof"@, JsonView::Text(proof_kind))],
    )
}

/// The key an approval is kept under.
pub open spec fn approval_key(a: ApprovalView) -> Seq<char> {
    a.subject_hash + ":"@ + canonical_hash(approval_json(a))
}

/// The kernel after an approval was recorded.
pub open spec fn approval_recorded<A>(
    k: KernelView<A>,
    now_ms: u64,
    a: ApprovalView,
    proof_kind: Seq<char>,
) -> KernelView<A> {
    let logged = with_event(k, "approval.recorded"@, now_ms, approval_record(a, proof_kind));
    KernelView {
        store: StoreView {
            approvals: logged.store.approvals.insert(approval_key(a), a),
            ..logged.store
        },
        ..logged
    }
}

/// Recording an approval that this process has verified itself.
pub open spec fn verified_approving<A>(
    k: KernelView<A>,
    now_ms: u64,
    a: ApprovalView,
    proof_kind: Seq<char>,
) -> (KernelView<A>, Result<(), KernelErrorView>) {
    if a.kind != ApprovalKind::Human {
        (k, Err(KernelErrorView::I1("a verified human approval is of kind human"@)))
    } else if !(a.approver is Human) {
        (k, Err(KernelErrorView::I1("a verified human approval names a human device"@)))
    } else if a.challenge is None {
        (k, Err(KernelErrorView::I1("a human approval answers a challenge"@)))
    } else if a.signature_hex is None || a.signature_hex->0.len() == 0 {
        (k, Err(KernelErrorView::I1("a human approval carries the assertion's signature"@)))
    } else if a.challenge->0.action_digest != a.subject_hash {
        (k, Err(KernelErrorView::I1("approval subject does not match the challenge's action"@)))
    } else {
        let (spent, verdict) = spending(k, a.challenge->0, now_ms);
        match verdict {
            Err(e) => (spent, Err(e)),
            Ok(_) => (approval_recorded(spent, now_ms, a, proof_kind), Ok(())),
        }
    }
}

/// Why an approval is not this principal's to give; nothing when it is. A human
/// approval is given by the person who makes the call, over the subject of the
/// challenge, with a signature that verifies under their device's key.
pub open spec fn approval_fault(
    devices: Map<Seq<char>, Seq<u8>>,
    principal: PrincipalView,
    a: ApprovalView,
) -> Option<KernelErrorView> {
    if a.kind != ApprovalKind::Human {
        None
    } else if !(principal is Human) || principal != a.approver {
        Some(KernelErrorView::I1("a human approval is given by the human who makes the call"@))
    } else if a.challenge is None {
        Some(KernelErrorView::I1("a human approval answers a minted challenge"@))
    } else if a.challenge->0.action_digest != a.subject_hash {
        Some(KernelErrorView::I1("approval subject does not match the challenge's action"@))
    } else if a.signature_hex is None || !is_hex(a.signature_hex->0) || unhex(
        a.signature_hex->0,
    ).len() != 64 {
        Some(KernelErrorView::I1("approval signature is not 64 bytes of hex"@))
    } else {
        match device_check(
            devices,
            principal->Human_device_id,
            challenge_message(a.challenge->0),
            unhex(a.signature_hex->0),
        ) {
            Ok(()) => None,
            Err(why) => Some(KernelErrorView::Principal(why)),
        }
    }
}

/// Approving: a human approval spends its challenge before anything else about it
/// is looked at.
pub open spec fn approving<A>(k: KernelView<A>, ctx: CtxView, a: ApprovalView) -> (
    KernelView<A>,
    Result<(), KernelErrorView>,
) {
    if a.kind == ApprovalKind::Human && a.challenge is None {
        (k, Err(KernelErrorView::I1("a human approval answers a minted challenge"@)))
    } else {
        let (spent, verdict) = if a.kind == ApprovalKind::Human {
            spending(k, a.challenge->0, ctx.now_ms)
        } else {
            (k, Ok(Seq::empty()))
        };
        match verdict {
            Err(e) => (spent, Err(e)),
            Ok(_) => match approval_fault(k.devices, ctx.principal, a) {
                Some(e) => (spent, Err(e)),
                None => (approval_recorded(spent, ctx.now_ms, a, "device-key"@), Ok(())),
            },
        }
    }
}

/// Whether a recorded approval is one of this subject.
pub open spec fn approves(a: ApprovalView, subject: Seq<char>) -> bool {
    a.subject_hash == subject
}

/// Whether a person has approved a subject.
pub open spec fn human_approved(s: StoreView, subject: Seq<char>) -> bool {
    exists|key: Seq<char>| #[trigger]
        s.approvals.contains_key(key) && approves(s.approvals[key], subject) && s.approvals[key].kind
            == ApprovalKind::Human
}

/// Whether `found` is every approval of a subject, and nothing else.
pub open spec fn lists_approvals(s: StoreView, subject: Seq<char>, found: Seq<ApprovalView>) -> bool {
    &&& forall|i: int|
        0 <= i < found.len() ==> approves(#[trigger] found[i], subject) && exists|key: Seq<char>|
            #[trigger] s.approvals.contains_key(key) && s.approvals[key] == found[i]
    &&& forall|key: Seq<char>| #[trigger]
        s.approvals.contains_key(key) && approves(s.approvals[key], subject) ==> found.contains(
            s.approvals[key],
        )
}

/// Whether `nonces` are those of the challenges still open, the one closest to its
/// end first, and by nonce among those that end together.
pub open spec fn open_nonces<A>(k: KernelView<A>, now_ms: u64, nonces: Seq<Seq<char>>) -> bool {
    &&& forall|i: int, j: int|
        #![trigger nonces[i], nonces[j]]
        0 <= i < j < nonces.len() ==> {
            let a = k.approval_challenges[nonces[i]].challenge.expires_at_ms;
            let b = k.approval_challenges[nonces[j]].challenge.expires_at_ms;
            a < b || a == b && before(nonces[i], nonces[j])
        }
    &&& forall|n: Seq<char>| #[trigger]
        nonces.contains(n) <==> live::<PendingApproval>(
            k.approval_challenges,
            now_ms,
        ).contains_key(n)
}

/// Whether `list` is the challenges still open, in that order.
pub open spec fn lists_pending<A>(
    k: KernelView<A>,
    now_ms: u64,
    list: Seq<PendingApprovalView>,
) -> bool {
    exists|nonces: Seq<Seq<char>>| #[trigger]
        open_nonces(k, now_ms, nonces) && list == nonces.map_values(
            |n: Seq<char>| k.approval_challenges[n],
        )
}

/// Whether rows stand by their end, and by their number among those that end
/// together.
spec fn in_order(rows: Seq<int>, list: Seq<PendingApproval>) -> bool {
    forall|a: int, b: int|
        #![trigger list[a], list[b]]
        0 <= a < b < rows.len() ==> list[a]@.challenge.expires_at_ms
            < list[b]@.challenge.expires_at_ms || list[a]@.challenge.expires_at_ms
            == list[b]@.challenge.expires_at_ms && rows[a] < rows[b]
}

proof fn inserted_in_order(
    rows: Seq<int>,
    list: Seq<PendingApproval>,
    at: int,
    row: int,
    p: PendingApproval,
)
    requires
        in_order(rows, list),
        rows.len() == list.len(),
        0 <= at <= list.len(),
        forall|j: int| 0 <= j < rows.len() ==> #[trigger] rows[j] < row,
        forall|j: int|
            0 <= j < at ==> (#[trigger] list[j])@.challenge.expires_at_ms
                <= p@.challenge.expires_at_ms,
        forall|j: int|
            at <= j < list.len() ==> (#[trigger] list[j])@.challenge.expires_at_ms
                > p@.challenge.expires_at_ms,
    ensures
        in_order(rows.insert(at, row), list.insert(at, p)),
{
    let now = rows.insert(at, row);
    let after = list.insert(at, p);
    assert forall|a: int, b: int|
        #![trigger after[a], after[b]]
        0 <= a < b < now.len() implies (after[a]@.challenge.expires_at_ms
        < after[b]@.challenge.expires_at_ms || (after[a]@.challenge.expires_at_ms
        == after[b]@.challenge.expires_at_ms && now[a] < now[b])) by {
        if a < at {
            assert(after[a] == list[a] && now[a] == rows[a]);
            if b < at {
                assert(after[b] == list[b] && now[b] == rows[b]);
            } else if b == at {
                assert(after[b] == p && now[b] == row);
            } else {
                assert(after[b] == list[b - 1] && now[b] == rows[b - 1]);
            }
        } else if a == at {
            assert(after[a] == p);
            assert(after[b] == list[b - 1]);
        } else {
            assert(after[a] == list[a - 1] && now[a] == rows[a - 1]);
            assert(after[b] == list[b - 1] && now[b] == rows[b - 1]);
        }
    }
}

impl<A> RealKernel<A> {
    /// Mint the challenge that a human approval of the task must answer, with
    /// this nonce.
    pub fn mint_with_nonce(&mut self, ctx: &Ctx, task_id: &str, ttl_ms: u64, nonce: &str) -> (r: Result<
        Challenge,
        KernelError,
    >)
        requires
            old(self).wf(),
        ensures
            final(self).wf(),
            (final(self)@, outcome(r)) == minting(old(self)@, ctx@, task_id@, ttl_ms, nonce@),
    {
        let subject = match self.approval_subject(ctx, task_id) {
            Err(e) => return Err(e),
            Ok(subject) => subject,
        };
        make_room(&mut self.approval_challenges, ctx.now_ms, MAX_APPROVAL_CHALLENGES);
        let challenge = Challenge {
            resource: cat("task:", task_id),
            action_digest: subject,
            nonce: nonce.to_owned(),
            expires_at_ms: ctx.now_ms.saturating_add(ttl_ms),
        };
        let pending = PendingApproval { task_id: task_id.to_owned(), challenge: challenge.dup() };
        self.approval_challenges.insert(nonce, pending);
        proof {
            sound_without_the_rest(old(self)@, self@);
        }
        Ok(challenge)
    }

    /// Mint a challenge with a fresh nonce and this lifetime.
    pub fn mint_approval_challenge_with_ttl(&mut self, ctx: &Ctx, task_id: &str, ttl_ms: u64) -> (r: Result<
        Challenge,
        KernelError,
    >)
        requires
            old(self).wf(),
        ensures
            final(self).wf(),
            exists|nonce: Seq<char>|
                is_key_text(nonce) && (final(self)@, outcome(r)) == #[trigger] minting(
                    old(self)@,
                    ctx@,
                    task_id@,
                    ttl_ms,
                    nonce,
                ),
    {
        let nonce = fresh_key_text();
        self.mint_with_nonce(ctx, task_id, ttl_ms, nonce.as_str())
    }

    /// Mint a challenge with a fresh nonce.
    pub fn mint_approval_challenge(&mut self, ctx: &Ctx, task_id: &str) -> (r: Result<
        Challenge,
        KernelError,
    >)
        requires
            old(self).wf(),
        ensures
            final(self).wf(),
            exists|nonce: Seq<char>|
                is_key_text(nonce) && (final(self)@, outcome(r)) == #[trigger] minting(
                    old(self)@,
                    ctx@,
                    task_id@,
                    APPROVAL_CHALLENGE_TTL_MS,
                    nonce,
                ),
    {
        self.mint_approval_challenge_with_ttl(ctx, task_id, APPROVAL_CHALLENGE_TTL_MS)
    }

    pub(crate) fn spend_approval_challenge(&mut self, presented: &Challenge, now_ms: u64) -> (r: Result<
        String,
        KernelError,
    >)
        requires
            old(self).wf(),
        ensures
            final(self).wf(),
            (final(self)@, outcome(r)) == spending(old(self)@, presented@, now_ms),
    {
        let removed = self.approval_challenges.remove(presented.nonce.as_str());
        proof {
            sound_without_the_rest(old(self)@, self@);
        }
        match removed {
            None => {
                assert(self@ =~= old(self)@);
                Err(
                    KernelError::I1(
                        "approval challenge was not minted by this node, or was already spent".to_owned(),
                    ),
                )
            },
            Some(minted) => {
                if !minted.challenge.same_as(presented) {
                    return Err(
                        KernelError::I1(
                            "approval challenge is not the one this node minted for that nonce".to_owned(),
                        ),
                    );
                }
                if now_ms >= presented.expires_at_ms {
                    return Err(KernelError::I1("approval challenge expired".to_owned()));
                }
                Ok(minted.task_id)
            },
        }
    }

    pub(crate) fn record_approval(&mut self, now_ms: u64, approval: &Approval, proof_kind: &str)
        requires
            old(self).wf(),
        ensures
            final(self).wf(),
            final(self)@ == approval_recorded(old(self)@, now_ms, approval@, proof_kind@),
    {
        let form = approval_to_json(approval);
        let digest = hash_canonical(&form);
        let key = cat3(approval.subject_hash.as_str(), ":", digest.as_str());
        let mut f = Fields::new();
        f.put("approval", form);
        f.put_text("proof", proof_kind);
        assert(f@ =~= approval_record(approval@, proof_kind@)->Object_0);
        self.record_event("approval.recorded", now_ms, f.object());
        self.store.approvals.insert(key.as_str(), approval.dup());
    }

    /// Record a human approval that this process has verified itself. `proof`
    /// names the ceremony on the record.
    pub fn record_verified_human_approval(
        &mut self,
        now_ms: u64,
        approval: Approval,
        proof_kind: &str,
    ) -> (r: Result<(), KernelError>)
        requires
            old(self).wf(),
        ensures
            final(self).wf(),
            (final(self)@, done(r)) == verified_approving(
                old(self)@,
                now_ms,
                approval@,
                proof_kind@,
            ),
    {
        if let Err(e) = self.take_verified(now_ms, &approval) {
            return Err(e);
        }
        self.record_approval(now_ms, &approval, proof_kind);
        Ok(())
    }

    /// Take the challenge that a verified approval answers.
    pub(crate) fn take_verified(&mut self, now_ms: u64, approval: &Approval) -> (r: Result<
        (),
        KernelError,
    >)
        requires
            old(self).wf(),
        ensures
            final(self).wf(),
            forall|proof_kind: Seq<char>|
                match r {
                    Ok(_) => final(self)@ == spending(
                        old(self)@,
                        approval@.challenge->0,
                        now_ms,
                    ).0 && (#[trigger] verified_approving(
                        old(self)@,
                        now_ms,
                        approval@,
                        proof_kind,
                    )) == (
                        approval_recorded(final(self)@, now_ms, approval@, proof_kind),
                        Ok::<(), KernelErrorView>(()),
                    ),
                    Err(e) => (#[trigger] verified_approving(
                        old(self)@,
                        now_ms,
                        approval@,
                        proof_kind,
                    )) == (final(self)@, Err::<(), KernelErrorView>(e@)),
                },
    {
        if approval.kind != ApprovalKind::Human {
            return Err(KernelError::I1("a verified human approval is of kind human".to_owned()));
        }
        if !approval.approver.is_human() {
            return Err(KernelError::I1("a verified human approval names a human device".to_owned()));
        }
        let challenge = match &approval.challenge {
            None => return Err(KernelError::I1("a human approval answers a challenge".to_owned())),
            Some(c) => c.dup(),
        };
        let signed = match &approval.signature_hex {
            None => false,
            Some(s) => !s.as_str().is_empty(),
        };
        if !signed {
            return Err(
                KernelError::I1("a human approval carries the assertion's signature".to_owned()),
            );
        }
        if !same(challenge.action_digest.as_str(), approval.subject_hash.as_str()) {
            return Err(
                KernelError::I1("approval subject does not match the challenge's action".to_owned()),
            );
        }
        match self.spend_approval_challenge(&challenge, now_ms) {
            Err(e) => Err(e),
            Ok(_) => Ok(()),
        }
    }

    pub(crate) fn fault_of(&self, principal: &Principal, a: &Approval) -> (r: Option<KernelError>)
        requires
            self.wf(),
        ensures
            opt(r) == approval_fault(self@.devices, principal@, a@),
    {
        if a.kind != ApprovalKind::Human {
            return None;
        }
        let device = match principal {
            Principal::Human { device_id } => device_id,
            _ => return Some(
                KernelError::I1("a human approval is given by the human who makes the call".to_owned()),
            ),
        };
        if !principal.same_as(&a.approver) {
            return Some(
                KernelError::I1("a human approval is given by the human who makes the call".to_owned()),
            );
        }
        let challenge = match &a.challenge {
            None => return Some(
                KernelError::I1("a human approval answers a minted challenge".to_owned()),
            ),
            Some(c) => c,
        };
        if !same(challenge.action_digest.as_str(), a.subject_hash.as_str()) {
            return Some(
                KernelError::I1("approval subject does not match the challenge's action".to_owned()),
            );
        }
        let bytes = match &a.signature_hex {
            None => None,
            Some(s) => hex_decode(s.as_str()),
        };
        let signature = match &bytes {
            None => None,
            Some(v) => array_of_64(v),
        };
        match signature {
            None => Some(KernelError::I1("approval signature is not 64 bytes of hex".to_owned())),
            Some(signature) => {
                let message = challenge.digest();
                match self.verify_device(device.as_str(), message.as_slice(), &signature) {
                    Ok(()) => None,
                    Err(why) => Some(KernelError::Principal(why)),
                }
            },
        }
    }

    /// Record an approval. A human one answers a challenge that this node minted,
    /// which is spent whatever follows.
    pub fn approve(&mut self, ctx: &Ctx, approval: Approval) -> (r: Result<(), KernelError>)
        requires
            old(self).wf(),
        ensures
            final(self).wf(),
            (final(self)@, done(r)) == approving(old(self)@, ctx@, approval@),
    {
        if approval.kind == ApprovalKind::Human {
            let challenge = match &approval.challenge {
                None => return Err(
                    KernelError::I1("a human approval answers a minted challenge".to_owned()),
                ),
                Some(c) => c.dup(),
            };
            if let Err(e) = self.spend_approval_challenge(&challenge, ctx.now_ms) {
                return Err(e);
            }
        }
        if let Some(e) = self.fault_of(&ctx.principal, &approval) {
            return Err(e);
        }
        self.record_approval(ctx.now_ms, &approval, "device-key");
        Ok(())
    }

    /// Every recorded approval of a subject.
    pub fn approvals_for(&self, subject_hash: &str) -> (r: Vec<Approval>)
        requires
            self.wf(),
        ensures
            lists_approvals(self@.store, subject_hash@, all(r@)),
    {
        let ghost s = self@.store;
        let ghost keys = self.store.approvals.keys();
        let mut r: Vec<Approval> = Vec::new();
        let mut i: usize = 0;
        while i < self.store.approvals.len()
            invariant
                self.wf(),
                s == self@.store,
                keys == self.store.approvals.keys(),
                i <= keys.len(),
                forall|j: int|
                    0 <= j < all(r@).len() ==> approves(#[trigger] all(r@)[j], subject_hash@)
                        && exists|key: Seq<char>| #[trigger]
                        s.approvals.contains_key(key) && s.approvals[key] == all(r@)[j],
                forall|m: int|
                    0 <= m < i && approves(s.approvals[#[trigger] keys[m]], subject_hash@) ==> all(
                        r@,
                    ).contains(s.approvals[keys[m]]),
            decreases keys.len() - i,
        {
            let a = self.store.approvals.value_at(i);
            let ghost before = all(r@);
            assert(s.approvals.contains_key(keys[i as int]));
            if same(a.subject_hash.as_str(), subject_hash) {
                r.push(a.dup());
                proof {
                    assert(all(r@) =~= before.push(a@));
                    assert(all(r@)[before.len() as int] == a@);
                    assert forall|x: ApprovalView| before.contains(x) implies all(r@).contains(x) by {
                        let j = before.index_of(x);
                        assert(all(r@)[j] == x);
                    }
                    assert forall|j: int| 0 <= j < all(r@).len() implies approves(
                        #[trigger] all(r@)[j],
                        subject_hash@,
                    ) && exists|key: Seq<char>| #[trigger]
                        s.approvals.contains_key(key) && s.approvals[key] == all(r@)[j] by {
                        if j < before.len() {
                            assert(all(r@)[j] == before[j]);
                        }
                    }
                }
            }
            i += 1;
        }
        proof {
            self.store.approvals.keys_are_domain();
            assert forall|key: Seq<char>| #[trigger]
                s.approvals.contains_key(key) && approves(
                    s.approvals[key],
                    subject_hash@,
                ) implies all(r@).contains(s.approvals[key]) by {
                let m = keys.index_of(key);
                assert(keys[m] == key);
            }
        }
        r
    }

    /// Whether a person has approved a subject.
    pub fn has_human_approval(&self, subject_hash: &str) -> (r: bool)
        requires
            self.wf(),
        ensures
            r == human_approved(self@.store, subject_hash@),
    {
        let found = self.approvals_for(subject_hash);
        let ghost s = self@.store;
        let mut i: usize = 0;
        while i < found.len()
            invariant
                i <= found@.len(),
                s == self@.store,
                lists_approvals(s, subject_hash@, all(found@)),
                forall|j: int| 0 <= j < i ==> (#[trigger] all(found@)[j]).kind != ApprovalKind::Human,
            decreases found@.len() - i,
        {
            assert(all(found@)[i as int] == found@[i as int]@);
            if found[i].kind == ApprovalKind::Human {
                return true;
            }
            i += 1;
        }
        proof {
            assert forall|key: Seq<char>| #[trigger]
                s.approvals.contains_key(key) && approves(
                    s.approvals[key],
                    subject_hash@,
                ) implies s.approvals[key].kind != ApprovalKind::Human by {
                let j = all(found@).index_of(s.approvals[key]);
                assert(all(found@)[j] == s.approvals[key]);
            }
        }
        false
    }

    /// The challenges that are still open, the one closest to its end first.
    pub fn pending_approvals(&self, now_ms: u64) -> (r: Vec<PendingApproval>)
        requires
            self.wf(),
        ensures
            lists_pending(self@, now_ms, all(r@)),
    {
        let ghost m = self@.approval_challenges;
        let ghost keys = self.approval_challenges.keys();
        let ghost mut rows: Seq<int> = Seq::empty();
        let mut r: Vec<PendingApproval> = Vec::new();
        let mut i: usize = 0;
        while i < self.approval_challenges.len()
            invariant
                self.wf(),
                m == self@.approval_challenges,
                keys == self.approval_challenges.keys(),
                i <= keys.len(),
                rows.len() == r@.len(),
                forall|j: int|
                    0 <= j < rows.len() ==> 0 <= #[trigger] rows[j] < i && m.contains_key(
                        keys[rows[j]],
                    ) && m[keys[rows[j]]] == r@[j]@ && r@[j]@.challenge.expires_at_ms > now_ms,
                in_order(rows, r@),
                forall|x: int|
                    0 <= x < i && m[#[trigger] keys[x]].challenge.expires_at_ms > now_ms
                        ==> rows.contains(x),
            decreases keys.len() - i,
        {
            let p = self.approval_challenges.value_at(i);
            let e: u64 = p.challenge.expires_at_ms;
            if e > now_ms {
                let mut at: usize = 0;
                while at < r.len() && r[at].challenge.expires_at_ms <= e
                    invariant
                        at <= r@.len(),
                        forall|j: int|
                            0 <= j < at ==> (#[trigger] r@[j]).challenge.expires_at_ms <= e,
                    decreases r@.len() - at,
                {
                    at += 1;
                }
                let ghost was = rows;
                let ghost list = r@;
                r.insert(at, p.dup());
                proof {
                    rows = was.insert(at as int, i as int);
                    assert forall|j: int| 0 <= j < rows.len() implies 0 <= #[trigger] rows[j] < i + 1
                        && m.contains_key(keys[rows[j]]) && m[keys[rows[j]]] == r@[j]@
                        && r@[j]@.challenge.expires_at_ms > now_ms by {
                        if j < at {
                            assert(rows[j] == was[j] && r@[j] == list[j]);
                        } else if j > at {
                            assert(rows[j] == was[j - 1] && r@[j] == list[j - 1]);
                        }
                    }
                    assert forall|j: int| at <= j < list.len() implies (#[trigger] list[j])@.challenge.expires_at_ms
                        > e by {
                        assert(list[at as int]@.challenge.expires_at_ms > e);
                        if j > at {
                            assert(list[at as int]@.challenge.expires_at_ms
                                < list[j]@.challenge.expires_at_ms || was[at as int] < was[j]);
                        }
                    }
                    inserted_in_order(was, list, at as int, i as int, r@[at as int]);
                    assert(r@ =~= list.insert(at as int, r@[at as int]));
                    assert forall|x: int|
                        0 <= x < i + 1 && m[#[trigger] keys[x]].challenge.expires_at_ms
                            > now_ms implies rows.contains(x) by {
                        if x < i {
                            let j = was.index_of(x);
                            assert(was[j] == x);
                            if j < at {
                                assert(rows[j] == x);
                            } else {
                                assert(rows[j + 1] == x);
                            }
                        } else {
                            assert(rows[at as int] == x);
                        }
                    }
                }
            }
            i += 1;
        }
        proof {
            self.approval_challenges.keys_are_domain();
            let nonces = rows.map_values(|x: int| keys[x]);
            assert(all(r@) =~= nonces.map_values(|n: Seq<char>| m[n])) by {
                assert forall|j: int| 0 <= j < rows.len() implies all(r@)[j] == m[nonces[j]] by {
                    assert(0 <= rows[j]);
                }
            }
            assert forall|a: int, b: int|
                #![trigger nonces[a], nonces[b]]
                0 <= a < b < nonces.len() implies {
                let x = m[nonces[a]].challenge.expires_at_ms;
                let y = m[nonces[b]].challenge.expires_at_ms;
                x < y || x == y && before(nonces[a], nonces[b])
            } by {
                assert(m[keys[rows[a]]] == r@[a]@ && m[keys[rows[b]]] == r@[b]@);
                if rows[a] < rows[b] {
                    assert(before(keys[rows[a]], keys[rows[b]]));
                }
            }
            assert forall|n: Seq<char>| #[trigger] nonces.contains(n) <==> live::<PendingApproval>(
                m,
                now_ms,
            ).contains_key(n) by {
                if nonces.contains(n) {
                    let j = nonces.index_of(n);
                    assert(nonces[j] == n);
                    assert(0 <= rows[j]);
                }
                if live::<PendingApproval>(m, now_ms).contains_key(n) {
                    assert(keys.contains(n));
                    let x = keys.index_of(n);
                    assert(keys[x] == n);
                    let j = rows.index_of(x);
                    assert(rows[j] == x);
                    assert(nonces[j] == n);
                }
            }
            assert(open_nonces(self@, now_ms, nonces));
        }
        r
    }
}

/// Spending a challenge succeeds exactly when its nonce is open, it is the challenge that
/// was minted under it in every field, and it has not run out; what it is worth is then
/// the task it was minted for. Anything else is refused for want of a person's presence.
/// Either way the nonce is open no more, every other one is as it was, and nothing else
/// of the kernel is touched.
pub proof fn challenge_spends_exactly_when_good<A>(
    k: KernelView<A>,
    presented: ChallengeView,
    now_ms: u64,
)
    ensures
        ({
            let (after, r) = spending(k, presented, now_ms);
            let open = k.approval_challenges;
            let nonce = presented.nonce;
            &&& r is Ok <==> {
                &&& open.contains_key(nonce)
                &&& open[nonce].challenge.resource == presented.resource
                &&& open[nonce].challenge.action_digest == presented.action_digest
                &&& open[nonce].challenge.nonce == presented.nonce
                &&& open[nonce].challenge.expires_at_ms == presented.expires_at_ms
                &&& now_ms < presented.expires_at_ms
            }
            &&& r matches Ok(task) ==> task == open[nonce].task_id
            &&& r matches Err(e) ==> e is I1
            &&& after.approval_challenges == open.remove(nonce)
            &&& after == (KernelView { approval_challenges: open.remove(nonce), ..k })
        }),
{
    let open = k.approval_challenges;
    if !open.contains_key(presented.nonce) {
        assert(open.remove(presented.nonce) =~= open);
    }
}

/// A challenge is good for one approval: once its nonce was presented it is
/// refused, whatever is presented with it and whenever.
pub proof fn challenge_is_spent_once<A>(
    k: KernelView<A>,
    c: ChallengeView,
    now_ms: u64,
    again: ChallengeView,
    later: u64,
)
    requires
        again.nonce == c.nonce,
    ensures
        spending(spending(k, c, now_ms).0, again, later).1 is Err,
        spending(spending(k, c, now_ms).0, again, later).0 == spending(k, c, now_ms).0,
{
    let spent = spending(k, c, now_ms).0;
    assert(!spent.approval_challenges.contains_key(c.nonce));
}

/// A human approval is accepted only from the person who makes the call, over a
/// challenge that this node minted, that nobody has spent and that has not run
/// out, with a signature that verifies under their device's key.
pub proof fn human_approval_answers_a_minted_challenge<A>(
    k: KernelView<A>,
    ctx: CtxView,
    a: ApprovalView,
)
    requires
        a.kind == ApprovalKind::Human,
        approving(k, ctx, a).1 is Ok,
    ensures
        ctx.principal is Human,
        ctx.principal == a.approver,
        a.challenge is Some,
        k.approval_challenges.contains_key(a.challenge->0.nonce),
        k.approval_challenges[a.challenge->0.nonce].challenge == a.challenge->0,
        ctx.now_ms < a.challenge->0.expires_at_ms,
        a.challenge->0.action_digest == a.subject_hash,
        k.devices.contains_key(ctx.principal->Human_device_id),
        ed25519_accepts(
            k.devices[ctx.principal->Human_device_id],
            challenge_message(a.challenge->0),
            unhex(a.signature_hex->0),
        ),
{
}

/// Whatever a machine sends to be approved, no subject is approved by a person
/// that was not before.
pub proof fn machine_never_approves_as_human<A>(
    k: KernelView<A>,
    ctx: CtxView,
    a: ApprovalView,
    subject: Seq<char>,
)
    requires
        !(ctx.principal is Human),
        human_approved(approving(k, ctx, a).0.store, subject),
    ensures
        human_approved(k.store, subject),
{
    let after = approving(k, ctx, a).0.store;
    let key = choose|key: Seq<char>| #[trigger]
        after.approvals.contains_key(key) && approves(after.approvals[key], subject)
            && after.approvals[key].kind == ApprovalKind::Human;
    assert(k.store.approvals.contains_key(key));
}

/// An approval of one subject approves no other.
pub proof fn approval_approves_nothing_else<A>(
    k: KernelView<A>,
    ctx: CtxView,
    a: ApprovalView,
    subject: Seq<char>,
)
    requires
        subject != a.subject_hash,
        human_approved(approving(k, ctx, a).0.store, subject),
    ensures
        human_approved(k.store, subject),
{
    let after = approving(k, ctx, a).0.store;
    let key = choose|key: Seq<char>| #[trigger]
        after.approvals.contains_key(key) && approves(after.approvals[key], subject)
            && after.approvals[key].kind == ApprovalKind::Human;
    assert(k.store.approvals.contains_key(key));
}

/// An accepted human approval approves its subject.
pub proof fn accepted_approval_approves<A>(k: KernelView<A>, ctx: CtxView, a: ApprovalView)
    requires
        a.kind == ApprovalKind::Human,
        approving(k, ctx, a).1 is Ok,
    ensures
        human_approved(approving(k, ctx, a).0.store, a.subject_hash),
{
    let after = approving(k, ctx, a).0.store;
    assert(after.approvals.contains_key(approval_key(a)));
}

/// A refused human approval records nothing.
pub proof fn refused_approval_records_nothing<A>(k: KernelView<A>, ctx: CtxView, a: ApprovalView)
    requires
        approving(k, ctx, a).1 is Err,
    ensures
        approving(k, ctx, a).0.store == k.store,
{
}

/// However many challenges are minted, no more are open than the bound allows.
pub proof fn open_challenges_stay_bounded<A>(
    k: KernelView<A>,
    ctx: CtxView,
    task_id: Seq<char>,
    ttl_ms: u64,
    nonce: Seq<char>,
)
    requires
        k.approval_challenges.dom().finite(),
        k.approval_challenges.dom().len() <= MAX_APPROVAL_CHALLENGES,
    ensures
        minting(k, ctx, task_id, ttl_ms, nonce).0.approval_challenges.dom().finite(),
        minting(k, ctx, task_id, ttl_ms, nonce).0.approval_challenges.dom().len()
            <= MAX_APPROVAL_CHALLENGES,
{
    if subject_of(k.store, ctx, task_id) is Ok {
        let pending = minting(k, ctx, task_id, ttl_ms, nonce).0.approval_challenges[nonce];
        room_keeps_the_bound::<PendingApproval>(
            k.approval_challenges,
            ctx.now_ms,
            MAX_APPROVAL_CHALLENGES as nat,
            nonce,
            pending,
        );
    }
}

/// The challenge that is minted for a waiting task is the one that spends, for
/// that task, until it runs out.
pub proof fn minted_challenge_spends<A>(
    k: KernelView<A>,
    ctx: CtxView,
    task_id: Seq<char>,
    ttl_ms: u64,
    nonce: Seq<char>,
    later: u64,
)
    requires
        minting(k, ctx, task_id, ttl_ms, nonce).1 is Ok,
        later < minting(k, ctx, task_id, ttl_ms, nonce).1->Ok_0.expires_at_ms,
    ensures
        spending(
            minting(k, ctx, task_id, ttl_ms, nonce).0,
            minting(k, ctx, task_id, ttl_ms, nonce).1->Ok_0,
            later,
        ).1 == Ok::<Seq<char>, KernelErrorView>(task_id),
{
}

} // verus!
