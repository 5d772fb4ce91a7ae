//! Stops: a person halts a scope, and only a person lifts the stop again.
use crate::error::{KernelError, KernelErrorView};
use crate::json::{text, JsonView};
use crate::kernel::{
    exhausted, id_text, ids_differ, outcome, sound, with_event, KernelView, RealKernel,
};
use crate::model::{all, Duplicate};
use crate::principal::{Ctx, CtxView};
use crate::store::{ResumeEvent, ResumeEventView, StopEvent, StopEventView, StoreView};
use crate::table::{ascending, Table};
use crate::text::same;
use vstd::prelude::*;

verus! {

/// Whether a resume cites this stop.
pub open spec fn lifted<A>(k: KernelView<A>, stop_id: Seq<char>) -> bool {
    exists|r: Seq<char>| #[trigger] k.resumes.contains_key(r) && k.resumes[r].cites == stop_id
}

/// Whether a stop holds its scope still.
pub open spec fn holds<A>(k: KernelView<A>, stop_id: Seq<char>, scope: Seq<char>) -> bool {
    k.stops.contains_key(stop_id) && k.stops[stop_id].scope == scope && !lifted(k, stop_id)
}

/// Whether a scope is stopped: a stop of it has not been lifted.
pub open spec fn is_stopped<A>(k: KernelView<A>, scope: Seq<char>) -> bool {
    exists|id: Seq<char>| #[trigger] holds(k, id, scope)
}

/// What is said to a machine that does what only a person may.
pub open spec fn not_a_person() -> KernelErrorView {
    KernelErrorView::I1("this call requires a human principal"@)
}

/// Stopping a scope.
pub open spec fn stopping<A>(k: KernelView<A>, ctx: CtxView, scope: Seq<char>) -> (
    KernelView<A>,
    Result<Seq<char>, KernelErrorView>,
) {
    if !(ctx.principal is Human) {
        (k, Err(not_a_person()))
    } else if k.store.counter == u64::MAX {
        (k, Err(exhausted()))
    } else {
        let id = id_text("stop"@, k.node_id, (k.store.counter + 1) as nat);
        let e = StopEventView { id, scope, issuer: ctx.principal, hlc_ms: ctx.now_ms };
        let stopped = KernelView {
            store: StoreView {
                counter: (k.store.counter + 1) as u64,
                stops: k.store.stops.insert(id, e),
                ..k.store
            },
            stops: k.stops.insert(id, e),
            ..k
        };
        (with_event(stopped, "stop"@, ctx.now_ms, JsonView::Text(id)), Ok(id))
    }
}

/// Lifting one stop.
pub open spec fn resuming<A>(k: KernelView<A>, ctx: CtxView, stop_id: Seq<char>) -> (
    KernelView<A>,
    Result<(), KernelErrorView>,
) {
    if !(ctx.principal is Human) {
        (k, Err(not_a_person()))
    } else if !k.stops.contains_key(stop_id) {
        (k, Err(KernelErrorView::Stop("unknown stop"@)))
    } else if k.store.counter == u64::MAX {
        (k, Err(exhausted()))
    } else {
        let id = id_text("resume"@, k.node_id, (k.store.counter + 1) as nat);
        let e = ResumeEventView {
            id,
            cites: stop_id,
            issuer: ctx.principal,
            hlc_ms: ctx.now_ms,
        };
        let logged = with_event(k, "resume"@, ctx.now_ms, JsonView::Text(stop_id));
        let resumed = KernelView {
            store: StoreView {
                counter: (k.store.counter + 1) as u64,
                resumes: k.store.resumes.insert(id, e),
                ..logged.store
            },
            resumes: k.resumes.insert(id, e),
            ..logged
        };
        (resumed, Ok(()))
    }
}

/// What a result without a value says.
pub open spec fn done(r: Result<(), KernelError>) -> Result<(), KernelErrorView> {
    match r {
        Ok(()) => Ok(()),
        Err(e) => Err(e@),
    }
}

impl<A> RealKernel<A> {
    /// Stop a scope, as a person. The stop is on the record before anything else
    /// acts on it.
    pub fn stop(&mut self, ctx: &Ctx, scope: &str) -> (r: Result<String, KernelError>)
        requires
            old(self).wf(),
        ensures
            final(self).wf(),
            (final(self)@, outcome(r)) == stopping(old(self)@, ctx@, scope@),
    {
        if !ctx.principal.is_human() {
            return Err(KernelError::I1("this call requires a human principal".to_owned()));
        }
        if self.store.counter == u64::MAX {
            return Err(KernelError::Store("the id counter is exhausted".to_owned()));
        }
        let n: u64 = self.store.counter + 1;
        let id = self.id_at("stop", n);
        let e = StopEvent {
            id: id.dup(),
            scope: scope.to_owned(),
            issuer: ctx.principal.dup(),
            hlc_ms: ctx.now_ms,
        };
        self.store.counter = n;
        self.store.stops.insert(id.as_str(), e.dup());
        self.stops.insert(id.as_str(), e);
        proof {
            assert forall|m: nat| m > n implies !self@.stops.contains_key(
                #[trigger] id_text("stop"@, self@.node_id, m),
            ) by {
                if id_text("stop"@, self@.node_id, m) == id@ {
                    ids_differ("stop"@, self@.node_id, m, n as nat);
                }
            }
        }
        self.record_event("stop", ctx.now_ms, text(id.as_str()));
        Ok(id)
    }

    /// Lift one stop, as a person. A stop that was never made cannot be cited,
    /// so no row can wait for one that is made later.
    pub fn resume(&mut self, ctx: &Ctx, stop_id: &str) -> (r: Result<(), KernelError>)
        requires
            old(self).wf(),
        ensures
            final(self).wf(),
            (final(self)@, done(r)) == resuming(old(self)@, ctx@, stop_id@),
    {
        if !ctx.principal.is_human() {
            return Err(KernelError::I1("this call requires a human principal".to_owned()));
        }
        if !self.stops.has(stop_id) {
            return Err(KernelError::Stop("unknown stop".to_owned()));
        }
        if self.store.counter == u64::MAX {
            return Err(KernelError::Store("the id counter is exhausted".to_owned()));
        }
        let n: u64 = self.store.counter + 1;
        let id = self.id_at("resume", n);
        let e = ResumeEvent {
            id: id.dup(),
            cites: stop_id.to_owned(),
            issuer: ctx.principal.dup(),
            hlc_ms: ctx.now_ms,
        };
        self.record_event("resume", ctx.now_ms, text(stop_id));
        self.store.counter = n;
        self.store.resumes.insert(id.as_str(), e.dup());
        self.resumes.insert(id.as_str(), e);
        proof {
            assert forall|m: nat| m > n implies !self@.resumes.contains_key(
                #[trigger] id_text("resume"@, self@.node_id, m),
            ) by {
                if id_text("resume"@, self@.node_id, m) == id@ {
                    ids_differ("resume"@, self@.node_id, m, n as nat);
                }
            }
        }
        Ok(())
    }

    fn is_lifted(&self, stop_id: &str) -> (r: bool)
        requires
            self.wf(),
        ensures
            r == lifted(self@, stop_id@),
    {
        let mut i: usize = 0;
        while i < self.resumes.len()
            invariant
                self.wf(),
                i <= self.resumes.keys().len(),
                forall|j: int|
                    0 <= j < i ==> self@.resumes[#[trigger] self.resumes.keys()[j]].cites
                        != stop_id@,
            decreases self.resumes.keys().len() - i,
        {
            if same(self.resumes.value_at(i).cites.as_str(), stop_id) {
                assert(self@.resumes.contains_key(self.resumes.keys()[i as int]));
                return true;
            }
            i += 1;
        }
        proof {
            self.resumes.keys_are_domain();
            assert forall|r: Seq<char>| #[trigger]
                self@.resumes.contains_key(r) implies self@.resumes[r].cites != stop_id@ by {
                let j = self.resumes.keys().index_of(r);
                assert(self.resumes.keys()[j] == r);
            }
        }
        false
    }

    /// Whether a scope is stopped.
    pub fn stopped(&self, scope: &str) -> (r: bool)
        requires
            self.wf(),
        ensures
            r == is_stopped(self@, scope@),
    {
        let mut i: usize = 0;
        while i < self.stops.len()
            invariant
                self.wf(),
                i <= self.stops.keys().len(),
                forall|j: int|
                    0 <= j < i ==> !holds(self@, #[trigger] self.stops.keys()[j], scope@),
            decreases self.stops.keys().len() - i,
        {
            let e = self.stops.value_at(i);
            let id = self.stops.key_at(i);
            if same(e.scope.as_str(), scope) && !self.is_lifted(id.as_str()) {
                assert(holds(self@, self.stops.keys()[i as int], scope@));
                return true;
            }
            i += 1;
        }
        proof {
            self.stops.keys_are_domain();
            assert forall|id: Seq<char>| !(#[trigger] holds(self@, id, scope@)) by {
                if self@.stops.contains_key(id) {
                    let j = self.stops.keys().index_of(id);
                    assert(self.stops.keys()[j] == id);
                }
            }
        }
        false
    }

    /// Every scope that is stopped, once each, in order.
    pub fn stopped_scopes(&self) -> (r: Vec<String>)
        requires
            self.wf(),
        ensures
            ascending(all(r@)),
            forall|s: Seq<char>| #[trigger] all(r@).contains(s) <==> is_stopped(self@, s),
    {
        let mut scopes: Table<u64> = Table::new();
        let mut i: usize = 0;
        while i < self.stops.len()
            invariant
                self.wf(),
                scopes.wf(),
                i <= self.stops.keys().len(),
                forall|s: Seq<char>| #[trigger]
                    scopes@.dom().contains(s) ==> is_stopped(self@, s),
                forall|j: int, s: Seq<char>|
                    0 <= j < i && holds(self@, #[trigger] self.stops.keys()[j], s)
                        ==> #[trigger] scopes@.dom().contains(s),
            decreases self.stops.keys().len() - i,
        {
            let e = self.stops.value_at(i);
            let id = self.stops.key_at(i);
            if !self.is_lifted(id.as_str()) {
                assert(holds(self@, self.stops.keys()[i as int], e.scope@));
                scopes.insert(e.scope.as_str(), 0);
            }
            i += 1;
        }
        let r = scopes.key_list();
        proof {
            scopes.keys_are_domain();
            self.stops.keys_are_domain();
            assert forall|s: Seq<char>| is_stopped(self@, s) implies #[trigger]
                scopes@.dom().contains(s) by {
                let id = choose|id: Seq<char>| #[trigger] holds(self@, id, s);
                let j = self.stops.keys().index_of(id);
                assert(self.stops.keys()[j] == id);
            }
            assert forall|s: Seq<char>| #[trigger] all(r@).contains(s) <==> is_stopped(
                self@,
                s,
            ) by {
                assert(scopes@.dom().contains(s) <==> scopes.keys().contains(s));
            }
        }
        r
    }
}

/// A machine never stops anything, and what it asked for leaves no trace.
pub proof fn machine_never_stops<A>(k: KernelView<A>, ctx: CtxView, scope: Seq<char>)
    requires
        !(ctx.principal is Human),
    ensures
        stopping(k, ctx, scope).0 == k,
        stopping(k, ctx, scope).1 is Err,
{
}

/// A person can always stop a scope, whatever went before, while ids last.
pub proof fn person_always_stops<A>(k: KernelView<A>, ctx: CtxView, scope: Seq<char>)
    requires
        sound(k),
        ctx.principal is Human,
        k.store.counter < u64::MAX,
    ensures
        stopping(k, ctx, scope).1 is Ok,
        is_stopped(stopping(k, ctx, scope).0, scope),
{
    let id = id_text("stop"@, k.node_id, (k.store.counter + 1) as nat);
    let after = stopping(k, ctx, scope).0;
    assert(after.resumes == k.resumes);
    assert(after.stops.contains_key(id));
    assert(!lifted(after, id));
    assert(holds(after, id, scope));
}

/// A resume lifts the stop it cites and no other.
pub proof fn resume_lifts_only_what_it_cites<A>(
    k: KernelView<A>,
    ctx: CtxView,
    stop_id: Seq<char>,
    other: Seq<char>,
    scope: Seq<char>,
)
    requires
        sound(k),
        resuming(k, ctx, stop_id).1 is Ok,
    ensures
        !holds(resuming(k, ctx, stop_id).0, stop_id, scope),
        other != stop_id ==> holds(resuming(k, ctx, stop_id).0, other, scope) == holds(
            k,
            other,
            scope,
        ),
{
    let after = resuming(k, ctx, stop_id).0;
    let id = id_text("resume"@, k.node_id, (k.store.counter + 1) as nat);
    assert(after.resumes.contains_key(id));
    assert(after.resumes[id].cites == stop_id);
    assert(lifted(after, stop_id));
    if other != stop_id {
        if lifted(k, other) {
            let r = choose|r: Seq<char>| #[trigger]
                k.resumes.contains_key(r) && k.resumes[r].cites == other;
            assert(after.resumes.contains_key(r) && after.resumes[r].cites == other);
        }
        if lifted(after, other) {
            let r = choose|r: Seq<char>| #[trigger]
                after.resumes.contains_key(r) && after.resumes[r].cites == other;
            assert(k.resumes.contains_key(r) && k.resumes[r].cites == other);
        }
    }
}

/// A refused resume changes nothing, so it cannot lift a stop that is made
/// later.
pub proof fn refused_resume_changes_nothing<A>(k: KernelView<A>, ctx: CtxView, stop_id: Seq<char>)
    requires
        resuming(k, ctx, stop_id).1 is Err,
    ensures
        resuming(k, ctx, stop_id).0 == k,
{
}

} // verus!
