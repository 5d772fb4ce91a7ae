//! What runs without a person, and what leaves the business: automations, promotions
//! and exports.
use crate::approvals::human_approved;
use crate::error::{KernelError, KernelErrorView};
use crate::json::{text, Items, JsonView};
use crate::kernel::{with_event, KernelView, RealKernel};
use crate::labels::Scope;
use crate::model::{all, verdict_view, Duplicate};
use crate::principal::{Ctx, CtxView};
use crate::stops::{done, is_stopped};
use crate::store::{
    GateKind, GateVerdict, GateVerdictView, LivenessLease, LivenessLeaseView, ModuleManifest,
    ModuleManifestView, StoreView,
};
use crate::table::ascending;
use crate::text::{cat, cat3, same};
use crate::wire::{scope_name, scope_text};
use vstd::prelude::*;

verus! {

/// The scope a stop of a business names.
pub open spec fn business_scope(business: Seq<char>) -> Seq<char> {
    "business:"@ + business
}

/// Whether somebody has attended to a business lately enough.
pub open spec fn attended(s: StoreView, business: Seq<char>, now: u64) -> bool {
    s.liveness.contains_key(business) && now < s.liveness[business].expires_at_ms
}

/// Why an automation of a business may not run now, if it may not.
pub open spec fn automation_fault<A>(k: KernelView<A>, business: Seq<char>, now: u64) -> Option<
    KernelErrorView,
> {
    if is_stopped(k, business_scope(business)) {
        Some(KernelErrorView::Stopped(business_scope(business)))
    } else if !attended(k.store, business, now) {
        Some(KernelErrorView::I4("no live lease for business "@ + business))
    } else {
        None
    }
}

/// Two texts on the record.
pub open spec fn pair_json(a: Seq<char>, b: Seq<char>) -> JsonView {
    JsonView::Array(seq![JsonView::Text(a), JsonView::Text(b)])
}

pub(crate) fn pair_to_json(a: &str, b: &str) -> (r: crate::json::Json)
    ensures
        r@ == pair_json(a@, b@),
{
    let mut items = Items::new();
    items.add(text(a));
    items.add(text(b));
    assert(items@ =~= pair_json(a@, b@)->Array_0);
    items.array()
}

/// Running an automation. What a person starts is none.
pub open spec fn automating<A>(
    k: KernelView<A>,
    ctx: CtxView,
    business: Seq<char>,
    module: Seq<char>,
) -> (KernelView<A>, Result<(), KernelErrorView>) {
    if ctx.principal is Human {
        (k, Ok(()))
    } else {
        match automation_fault(k, business, ctx.now_ms) {
            Some(e) => (k, Err(e)),
            None => (
                with_event(k, "automation.ran"@, ctx.now_ms, pair_json(business, module)),
                Ok(()),
            ),
        }
    }
}

/// Renewing the lease of attention of a business.
pub open spec fn renewing<A>(
    k: KernelView<A>,
    business: Seq<char>,
    device: Seq<char>,
    expires_at_ms: u64,
) -> KernelView<A> {
    KernelView {
        store: StoreView {
            liveness: k.store.liveness.insert(
                business,
                LivenessLeaseView { business, renewed_by_device: device, expires_at_ms },
            ),
            ..k.store
        },
        ..k
    }
}

/// Whether a gate let a subject pass.
pub open spec fn passed(vs: Seq<GateVerdictView>, gate: GateKind, subject: Seq<char>) -> bool {
    exists|i: int|
        0 <= i < vs.len() && (#[trigger] vs[i]).gate == gate && vs[i].subject_hash == subject
            && vs[i].pass
}

/// Promoting a module: found valid on its own (`checked`), through its gate, and past a person unless its profile says
/// that it may be approved without one.
pub open spec fn promoting<A>(
    k: KernelView<A>,
    ctx: CtxView,
    m: ModuleManifestView,
    checked: Result<(), Seq<char>>,
    vs: Seq<GateVerdictView>,
) -> (KernelView<A>, Result<(), KernelErrorView>) {
    if checked is Err {
        (k, Err(KernelErrorView::Module(checked->Err_0)))
    } else if !passed(vs, GateKind::AnnexIii, m.content_hash) {
        (k, Err(KernelErrorView::Gate("annex_iii verdict required for promotion"@)))
    } else if m.auto_approve_allowed != Some(true) && !human_approved(k.store, m.content_hash) {
        (
            k,
            Err(KernelErrorView::I1("promotion of "@ + m.name + " requires a human approval"@)),
        )
    } else {
        let logged = with_event(
            k,
            "module.promoted"@,
            ctx.now_ms,
            JsonView::Text(m.content_hash),
        );
        (
            KernelView {
                store: StoreView {
                    hot: logged.store.hot.insert(m.content_hash, m),
                    ..logged.store
                },
                ..logged
            },
            Ok(()),
        )
    }
}

/// Exporting a module. To leave the business it passes the declassification gate.
pub open spec fn exporting<A>(
    k: KernelView<A>,
    ctx: CtxView,
    module_hash: Seq<char>,
    to_scope: Scope,
    vs: Seq<GateVerdictView>,
) -> (KernelView<A>, Result<(), KernelErrorView>) {
    if (to_scope == Scope::Public || to_scope == Scope::Vertical) && !passed(
        vs,
        GateKind::Declassification,
        module_hash,
    ) {
        (
            k,
            Err(
                KernelErrorView::Gate(
                    "declassification verdict required to leave the business"@,
                ),
            ),
        )
    } else {
        (
            with_event(
                k,
                "module.exported"@,
                ctx.now_ms,
                pair_json(module_hash, scope_text(to_scope)),
            ),
            Ok(()),
        )
    }
}

pub(crate) fn has_passed(vs: &Vec<GateVerdict>, gate: GateKind, subject: &str) -> (r: bool)
    ensures
        r == passed(all(vs@), gate, subject@),
{
    let mut i: usize = 0;
    while i < vs.len()
        invariant
            i <= vs@.len(),
            forall|j: int|
                0 <= j < i ==> !((#[trigger] all(vs@)[j]).gate == gate && all(vs@)[j].subject_hash
                    == subject@ && all(vs@)[j].pass),
        decreases vs@.len() - i,
    {
        assert(all(vs@)[i as int] == vs@[i as int]@);
        if vs[i].gate == gate && vs[i].pass && same(vs[i].subject_hash.as_str(), subject) {
            return true;
        }
        i += 1;
    }
    false
}

impl<A> RealKernel<A> {
    /// Renew the lease of attention of a business: the device that attended, and
    /// until when that counts.
    pub fn renew_liveness_persisted(
        &mut self,
        business: &str,
        device_id: &str,
        expires_at_ms: u64,
    ) -> (r: Result<(), KernelError>)
        requires
            old(self).wf(),
        ensures
            final(self).wf(),
            r is Ok,
            final(self)@ == renewing(old(self)@, business@, device_id@, expires_at_ms),
    {
        let lease = LivenessLease {
            business: business.to_owned(),
            renewed_by_device: device_id.to_owned(),
            expires_at_ms,
        };
        self.store.liveness.insert(business, lease);
        Ok(())
    }

    pub(crate) fn is_attended(&self, business: &str, now: u64) -> (r: bool)
        requires
            self.wf(),
        ensures
            r == attended(self@.store, business@, now),
    {
        match self.store.liveness.get(business) {
            Some(lease) => now < lease.expires_at_ms,
            None => false,
        }
    }

    /// Run an automation of a business: only while it is not stopped and somebody
    /// has attended to it.
    pub fn run_automation(&mut self, ctx: &Ctx, business: &str, module: &str) -> (r: Result<
        (),
        KernelError,
    >)
        requires
            old(self).wf(),
        ensures
            final(self).wf(),
            (final(self)@, done(r)) == automating(old(self)@, ctx@, business@, module@),
    {
        if ctx.principal.is_human() {
            return Ok(());
        }
        let scope = cat("business:", business);
        if self.stopped(scope.as_str()) {
            return Err(KernelError::Stopped(scope));
        }
        if !self.is_attended(business, ctx.now_ms) {
            return Err(KernelError::I4(cat("no live lease for business ", business)));
        }
        self.record_event("automation.ran", ctx.now_ms, pair_to_json(business, module));
        Ok(())
    }

    /// Promote a module, which `checked` says was found valid on its own or why it was not.
    /// The record has it before the module is hot.
    pub fn promote(
        &mut self,
        ctx: &Ctx,
        module: &ModuleManifest,
        checked: Result<(), String>,
        verdicts: &Vec<GateVerdict>,
    ) -> (r: Result<(), KernelError>)
        requires
            old(self).wf(),
        ensures
            final(self).wf(),
            (final(self)@, done(r)) == promoting(
                old(self)@,
                ctx@,
                module@,
                verdict_view(checked),
                all(verdicts@),
            ),
    {
        if let Err(why) = checked {
            return Err(KernelError::Module(why));
        }
        let subject = module.content_hash.as_str();
        if !has_passed(verdicts, GateKind::AnnexIii, subject) {
            return Err(KernelError::Gate("annex_iii verdict required for promotion".to_owned()));
        }
        let unattended = match module.auto_approve_allowed {
            Some(allowed) => allowed,
            None => false,
        };
        if !unattended && !self.has_human_approval(subject) {
            return Err(
                KernelError::I1(
                    cat3("promotion of ", module.name.as_str(), " requires a human approval"),
                ),
            );
        }
        self.record_event("module.promoted", ctx.now_ms, text(subject));
        self.store.hot.insert(subject, module.dup());
        Ok(())
    }

    /// Export a module to a scope.
    pub fn export(
        &mut self,
        ctx: &Ctx,
        module_hash: &str,
        to_scope: Scope,
        verdicts: &Vec<GateVerdict>,
    ) -> (r: Result<(), KernelError>)
        requires
            old(self).wf(),
        ensures
            final(self).wf(),
            (final(self)@, done(r)) == exporting(
                old(self)@,
                ctx@,
                module_hash@,
                to_scope,
                all(verdicts@),
            ),
    {
        if (to_scope == Scope::Public || to_scope == Scope::Vertical) && !has_passed(
            verdicts,
            GateKind::Declassification,
            module_hash,
        ) {
            return Err(
                KernelError::Gate(
                    "declassification verdict required to leave the business".to_owned(),
                ),
            );
        }
        self.record_event(
            "module.exported",
            ctx.now_ms,
            pair_to_json(module_hash, scope_name(to_scope)),
        );
        Ok(())
    }

    /// The content hashes of the modules that are hot, in order.
    pub fn hot_modules(&self) -> (r: Vec<String>)
        requires
            self.wf(),
        ensures
            ascending(all(r@)),
            forall|h: Seq<char>| #[trigger]
                all(r@).contains(h) <==> self@.store.hot.contains_key(h),
    {
        proof {
            self.store.hot.keys_are_domain();
        }
        self.store.hot.key_list()
    }
}

/// A machine runs an automation exactly while its business is attended to and not
/// stopped.
pub proof fn automation_runs_only_while_attended<A>(
    k: KernelView<A>,
    ctx: CtxView,
    business: Seq<char>,
    module: Seq<char>,
)
    requires
        !(ctx.principal is Human),
    ensures
        automating(k, ctx, business, module).1 is Ok <==> attended(
            k.store,
            business,
            ctx.now_ms,
        ) && !is_stopped(k, business_scope(business)),
        automating(k, ctx, business, module).1 is Err ==> automating(k, ctx, business, module).0
            == k,
{
}

/// A renewed lease lets automations run until it expires, and not after.
pub proof fn renewed_business_runs_until_the_lease_expires<A>(
    k: KernelView<A>,
    ctx: CtxView,
    business: Seq<char>,
    module: Seq<char>,
    device: Seq<char>,
    expires_at_ms: u64,
)
    requires
        !(ctx.principal is Human),
        !is_stopped(k, business_scope(business)),
    ensures
        automating(renewing(k, business, device, expires_at_ms), ctx, business, module).1 is Ok
            <==> ctx.now_ms < expires_at_ms,
{
    let after = renewing(k, business, device, expires_at_ms);
    assert(is_stopped(after, business_scope(business)) ==> is_stopped(k, business_scope(business)))
        by {
        if is_stopped(after, business_scope(business)) {
            let id = choose|id: Seq<char>| #[trigger]
                crate::stops::holds(after, id, business_scope(business));
            assert(crate::stops::lifted(k, id) ==> crate::stops::lifted(after, id));
            assert(crate::stops::holds(k, id, business_scope(business)));
        }
    }
}

/// What is not promoted leaves no trace; what is, passed its gate, and was approved
/// by a person unless its profile does without one.
pub proof fn promotion_passes_its_gate<A>(
    k: KernelView<A>,
    ctx: CtxView,
    m: ModuleManifestView,
    checked: Result<(), Seq<char>>,
    vs: Seq<GateVerdictView>,
)
    ensures
        promoting(k, ctx, m, checked, vs).1 is Ok ==> passed(vs, GateKind::AnnexIii, m.content_hash) && (
        m.auto_approve_allowed == Some(true) || human_approved(k.store, m.content_hash)),
        promoting(k, ctx, m, checked, vs).1 is Ok ==> promoting(k, ctx, m, checked, vs).0.store.hot.contains_key(
            m.content_hash,
        ),
        promoting(k, ctx, m, checked, vs).1 is Ok ==> checked is Ok,
        promoting(k, ctx, m, checked, vs).1 is Err ==> promoting(k, ctx, m, checked, vs).0 == k,
{
}

} // verus!
