//! Who acts: principals, the context of a call, challenges and approvals.
use crate::labels::Clearance;
use crate::model::{dup_opt, opt, Duplicate, Same};
use vstd::prelude::*;

verus! {

/// Who a call is made by: a person, through one of their devices, or a machine
/// under a lease.
#[derive(Debug)]
pub enum Principal {
    Human { device_id: String },
    Machine { node_id: String, lease_id: String },
}

/// What a [`Principal`] says.
pub enum PrincipalView {
    Human { device_id: Seq<char> },
    Machine { node_id: Seq<char>, lease_id: Seq<char> },
}

impl View for Principal {
    type V = PrincipalView;

    open spec fn view(&self) -> PrincipalView {
        match self {
            Principal::Human { device_id } => PrincipalView::Human { device_id: device_id@ },
            Principal::Machine { node_id, lease_id } => PrincipalView::Machine {
                node_id: node_id@,
                lease_id: lease_id@,
            },
        }
    }
}

impl Duplicate for Principal {
    fn dup(&self) -> (r: Self) {
        match self {
            Principal::Human { device_id } => Principal::Human { device_id: device_id.dup() },
            Principal::Machine { node_id, lease_id } => Principal::Machine {
                node_id: node_id.dup(),
                lease_id: lease_id.dup(),
            },
        }
    }
}

impl Same for Principal {
    fn same_as(&self, other: &Self) -> (r: bool) {
        match (self, other) {
            (Principal::Human { device_id: a }, Principal::Human { device_id: b }) => a.same_as(b),
            (
                Principal::Machine { node_id: a, lease_id: c },
                Principal::Machine { node_id: b, lease_id: d },
            ) => a.same_as(b) && c.same_as(d),
            _ => false,
        }
    }
}

impl Principal {
    /// Whether a person acts.
    pub fn is_human(&self) -> (r: bool)
        ensures
            r == (self@ is Human),
    {
        match self {
            Principal::Human { .. } => true,
            _ => false,
        }
    }
}

/// The context of one call: who makes it, what they may see, in which partition, and when.
#[derive(Debug)]
pub struct Ctx {
    pub principal: Principal,
    pub clearance: Clearance,
    pub partition: String,
    pub now_ms: u64,
}

/// What a [`Ctx`] says.
#[verifier::ext_equal]
pub struct CtxView {
    pub principal: PrincipalView,
    pub clearance: Clearance,
    pub partition: Seq<char>,
    pub now_ms: u64,
}

impl View for Ctx {
    type V = CtxView;

    open spec fn view(&self) -> CtxView {
        CtxView {
            principal: self.principal@,
            clearance: self.clearance,
            partition: self.partition@,
            now_ms: self.now_ms,
        }
    }
}

impl Duplicate for Ctx {
    fn dup(&self) -> (r: Self) {
        Ctx {
            principal: self.principal.dup(),
            clearance: self.clearance,
            partition: self.partition.dup(),
            now_ms: self.now_ms,
        }
    }
}

/// What a person signs to approve one thing once, before it expires.
#[derive(Debug)]
pub struct Challenge {
    pub resource: String,
    pub action_digest: String,
    pub nonce: String,
    pub expires_at_ms: u64,
}

/// What a [`Challenge`] says.
#[verifier::ext_equal]
pub struct ChallengeView {
    pub resource: Seq<char>,
    pub action_digest: Seq<char>,
    pub nonce: Seq<char>,
    pub expires_at_ms: u64,
}

impl View for Challenge {
    type V = ChallengeView;

    open spec fn view(&self) -> ChallengeView {
        ChallengeView {
            resource: self.resource@,
            action_digest: self.action_digest@,
            nonce: self.nonce@,
            expires_at_ms: self.expires_at_ms,
        }
    }
}

impl Duplicate for Challenge {
    fn dup(&self) -> (r: Self) {
        Challenge {
            resource: self.resource.dup(),
            action_digest: self.action_digest.dup(),
            nonce: self.nonce.dup(),
            expires_at_ms: self.expires_at_ms,
        }
    }
}

impl Same for Challenge {
    fn same_as(&self, other: &Self) -> (r: bool) {
        self.resource.same_as(&other.resource)
            && self.action_digest.same_as(&other.action_digest)
            && self.nonce.same_as(&other.nonce)
            && self.expires_at_ms == other.expires_at_ms
    }
}

/// What an approval rests on.
#[derive(Clone, Copy, Debug, PartialEq, Eq, Structural)]
pub enum ApprovalKind {
    Test,
    Audit,
    Human,
}

/// An approval of one subject.
#[derive(Debug)]
pub struct Approval {
    pub subject_hash: String,
    pub kind: ApprovalKind,
    pub approver: Principal,
    pub challenge: Option<Challenge>,
    pub signature_hex: Option<String>,
}

/// What a [`Approval`] says.
#[verifier::ext_equal]
pub struct ApprovalView {
    pub subject_hash: Seq<char>,
    pub kind: ApprovalKind,
    pub approver: PrincipalView,
    pub challenge: Option<ChallengeView>,
    pub signature_hex: Option<Seq<char>>,
}

impl View for Approval {
    type V = ApprovalView;

    open spec fn view(&self) -> ApprovalView {
        ApprovalView {
            subject_hash: self.subject_hash@,
            kind: self.kind,
            approver: self.approver@,
            challenge: opt(self.challenge),
            signature_hex: opt(self.signature_hex),
        }
    }
}

impl Duplicate for Approval {
    fn dup(&self) -> (r: Self) {
        Approval {
            subject_hash: self.subject_hash.dup(),
            kind: self.kind,
            approver: self.approver.dup(),
            challenge: dup_opt(&self.challenge),
            signature_hex: dup_opt(&self.signature_hex),
        }
    }
}

} // verus!
