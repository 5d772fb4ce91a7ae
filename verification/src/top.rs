//! The operator's one screen.
use crate::adapter::ArchAdapter;
use crate::arches::{entry_ids, lists_arches, manifest_of, state_name, state_of, state_reason, ArchEntry};
use crate::boot::scopes_stopped;
use crate::infer::{no_calls, stats_of};
use crate::kernel::{KernelView, RealKernel};
use crate::listing::one_order;
use crate::manifest::{locality_name, locality_text};
use crate::model::{all, dup_opt, opt, Duplicate};
use crate::principal::{Ctx, CtxView};
use crate::stops::is_stopped;
use crate::store::{ArchStats, ArchStatsView};
use crate::table::Table;
use crate::task::TaskStatus;
use crate::tasks::{lists_visible, seen, task_ids};
use vstd::prelude::*;

verus! {

/// What an operator is shown of an arch: what it has spent, and what it is while it
/// is mounted.
#[derive(Debug)]
pub struct TopArch {
    pub stats: ArchStats,
    /// Nothing for an arch that is not mounted any more.
    pub mounted: Option<MountedArch>,
}

/// What a mounted arch is.
#[derive(Debug)]
pub struct MountedArch {
    pub governed: bool,
    pub state: String,
    /// Why it cannot be called, if it cannot.
    pub unavailable: Option<String>,
    /// The price of a thousand tokens as the manifest states it, if it does.
    pub price_eur_per_1k: Option<String>,
    pub locality: String,
    pub jurisdiction: String,
}

/// What a [`MountedArch`] says.
#[verifier::ext_equal]
pub struct MountedArchView {
    pub governed: bool,
    pub state: Seq<char>,
    pub unavailable: Option<Seq<char>>,
    pub price_eur_per_1k: Option<Seq<char>>,
    pub locality: Seq<char>,
    pub jurisdiction: Seq<char>,
}

impl View for MountedArch {
    type V = MountedArchView;

    open spec fn view(&self) -> MountedArchView {
        MountedArchView {
            governed: self.governed,
            state: self.state@,
            unavailable: opt(self.unavailable),
            price_eur_per_1k: opt(self.price_eur_per_1k),
            locality: self.locality@,
            jurisdiction: self.jurisdiction@,
        }
    }
}

/// What a [`TopArch`] says.
#[verifier::ext_equal]
pub struct TopArchView {
    pub stats: ArchStatsView,
    pub mounted: Option<MountedArchView>,
}

impl View for TopArch {
    type V = TopArchView;

    open spec fn view(&self) -> TopArchView {
        TopArchView { stats: self.stats@, mounted: opt(self.mounted) }
    }
}

/// A task's status, in a table.
#[derive(Debug)]
pub struct StatusRow {
    pub status: TaskStatus,
}

impl View for StatusRow {
    type V = TaskStatus;

    open spec fn view(&self) -> TaskStatus {
        self.status
    }
}

/// The screen: what each arch has cost so far, what every task is doing, which scopes
/// are stopped, and until when each business may act unattended.
pub struct TopView {
    pub arches: Table<TopArch>,
    pub tasks: Table<StatusRow>,
    pub stopped_scopes: Vec<String>,
    pub liveness: Table<u64>,
}

/// What a [`TopView`] says.
#[verifier::ext_equal]
pub struct TopScreen {
    pub arches: Map<Seq<char>, TopArchView>,
    pub tasks: Map<Seq<char>, TaskStatus>,
    pub stopped_scopes: Seq<Seq<char>>,
    pub liveness: Map<Seq<char>, u64>,
}

impl View for TopView {
    type V = TopScreen;

    open spec fn view(&self) -> TopScreen {
        TopScreen {
            arches: self.arches@,
            tasks: self.tasks@,
            stopped_scopes: all(self.stopped_scopes@),
            liveness: self.liveness@,
        }
    }
}

impl TopView {
    /// The tables are in order.
    pub open spec fn wf(&self) -> bool {
        self.arches.wf() && self.tasks.wf() && self.liveness.wf()
    }
}

/// What a mounted arch is; nothing for one that is not mounted.
pub open spec fn mounted_of<A: ArchAdapter>(k: KernelView<A>, id: Seq<char>) -> Option<
    MountedArchView,
> {
    match state_of(k, id) {
        None => None,
        Some(state) => {
            let m = manifest_of(k, id);
            Some(
                MountedArchView {
                    governed: m.governed,
                    state: state_name(state),
                    unavailable: state_reason(state),
                    price_eur_per_1k: m.cost_per_1k_tokens_eur,
                    locality: locality_text(m.locality),
                    jurisdiction: m.jurisdiction,
                },
            )
        },
    }
}

/// What an operator is shown of an arch.
pub open spec fn top_arch<A: ArchAdapter>(k: KernelView<A>, id: Seq<char>) -> TopArchView {
    TopArchView { stats: stats_of(k.store, id), mounted: mounted_of(k, id) }
}

/// The screen, as `ctx` may see it: every arch that is mounted or has counters, and
/// the tasks that the caller is cleared for.
pub open spec fn top_of<A: ArchAdapter>(k: KernelView<A>, ctx: CtxView) -> TopScreen {
    TopScreen {
        arches: Map::new(
            |id: Seq<char>| k.store.stats.contains_key(id) || state_of(k, id) is Some,
            |id: Seq<char>| top_arch(k, id),
        ),
        tasks: Map::new(
            |id: Seq<char>| seen(k.store, ctx, id) is Some,
            |id: Seq<char>| seen(k.store, ctx, id)->0.status,
        ),
        stopped_scopes: scopes_stopped(k),
        liveness: Map::new(
            |b: Seq<char>| k.store.liveness.contains_key(b),
            |b: Seq<char>| k.store.liveness[b].expires_at_ms,
        ),
    }
}

fn mounted(e: &ArchEntry) -> (r: MountedArch)
    ensures
        r@ == (MountedArchView {
            governed: e@.manifest.governed,
            state: state_name(e@.state),
            unavailable: state_reason(e@.state),
            price_eur_per_1k: e@.manifest.cost_per_1k_tokens_eur,
            locality: locality_text(e@.manifest.locality),
            jurisdiction: e@.manifest.jurisdiction,
        }),
{
    let unavailable = match e.state.reason() {
        Some(why) => Some(why.to_owned()),
        None => None,
    };
    MountedArch {
        governed: e.manifest.governed,
        state: e.state.name().to_owned(),
        unavailable,
        price_eur_per_1k: dup_opt(&e.manifest.cost_per_1k_tokens_eur),
        locality: locality_name(e.manifest.locality).to_owned(),
        jurisdiction: e.manifest.jurisdiction.dup(),
    }
}

impl<A> RealKernel<A> {
    fn top_tasks(&self, ctx: &Ctx) -> (r: Table<StatusRow>)
        requires
            self.wf(),
        ensures
            r.wf(),
            forall|id: Seq<char>| #[trigger]
                r@.contains_key(id) <==> seen(self@.store, ctx@, id) is Some,
            forall|id: Seq<char>| #[trigger]
                r@.contains_key(id) ==> r@[id] == seen(self@.store, ctx@, id)->0.status,
    {
        let ts = self.tasks(ctx);
        let mut r: Table<StatusRow> = Table::new();
        let mut i: usize = 0;
        while i < ts.len()
            invariant
                lists_visible(self@.store, ctx@, all(ts@)),
                r.wf(),
                i <= ts@.len(),
                forall|id: Seq<char>| #[trigger]
                    r@.contains_key(id) <==> exists|j: int|
                        0 <= j < i && (#[trigger] all(ts@)[j]).id == id,
                forall|id: Seq<char>| #[trigger]
                    r@.contains_key(id) ==> seen(self@.store, ctx@, id) is Some && r@[id] == seen(
                        self@.store,
                        ctx@,
                        id,
                    )->0.status,
            decreases ts@.len() - i,
        {
            assert(all(ts@)[i as int] == ts@[i as int]@);
            r.insert(ts[i].id.as_str(), StatusRow { status: ts[i].status });
            i += 1;
        }
        proof {
            assert forall|id: Seq<char>| seen(self@.store, ctx@, id) is Some implies #[trigger] r@.contains_key(
                id,
            ) by {
                let ids = task_ids(all(ts@));
                assert(ids.contains(id));
                let j = ids.index_of(id);
                assert(all(ts@)[j].id == id);
            }
        }
        r
    }

    fn top_liveness(&self) -> (r: Table<u64>)
        requires
            self.wf(),
        ensures
            r.wf(),
            forall|b: Seq<char>| #[trigger]
                r@.contains_key(b) <==> self@.store.liveness.contains_key(b),
            forall|b: Seq<char>| #[trigger]
                r@.contains_key(b) ==> r@[b] == self@.store.liveness[b].expires_at_ms,
    {
        let mut r: Table<u64> = Table::new();
        let mut i: usize = 0;
        while i < self.store.liveness.len()
            invariant
                self.wf(),
                r.wf(),
                i <= self.store.liveness.keys().len(),
                forall|b: Seq<char>| #[trigger]
                    r@.contains_key(b) <==> exists|j: int|
                        0 <= j < i && #[trigger] self.store.liveness.keys()[j] == b,
                forall|b: Seq<char>| #[trigger]
                    r@.contains_key(b) ==> r@[b] == self@.store.liveness[b].expires_at_ms,
            decreases self.store.liveness.keys().len() - i,
        {
            r.insert(
                self.store.liveness.key_at(i).as_str(),
                self.store.liveness.value_at(i).expires_at_ms,
            );
            i += 1;
        }
        proof {
            self.store.liveness.keys_are_domain();
            assert forall|b: Seq<char>| #[trigger] r@.contains_key(b) <==> self@.store.liveness.contains_key(
                b,
            ) by {
                if self@.store.liveness.contains_key(b) {
                    let j = self.store.liveness.keys().index_of(b);
                    assert(self.store.liveness.keys()[j] == b);
                }
            }
        }
        r
    }

    fn counters_of(&self, arch_id: &str) -> (r: ArchStats)
        requires
            self.wf(),
        ensures
            r@ == stats_of(self@.store, arch_id@),
    {
        match self.store.stats.get(arch_id) {
            Some(s) => s.dup(),
            None => {
                let s = ArchStats {
                    calls: 0,
                    tokens_in: 0,
                    tokens_in_measured: 0,
                    projected: 0,
                    costs: Vec::new(),
                };
                assert(s@ =~= no_calls());
                s
            },
        }
    }
}

impl<A: ArchAdapter> RealKernel<A> {
    fn top_mounted(&self) -> (r: Table<TopArch>)
        requires
            self.wf(),
        ensures
            r.wf(),
            forall|id: Seq<char>| #[trigger]
                r@.contains_key(id) <==> state_of(self@, id) is Some,
            forall|id: Seq<char>| #[trigger] r@.contains_key(id) ==> r@[id] == top_arch(self@, id),
    {
        let mut r: Table<TopArch> = Table::new();
        let es = self.arch_states();
        let ghost views = all(es@);
        let mut i: usize = 0;
        while i < es.len()
            invariant
                self.wf(),
                r.wf(),
                i <= es@.len(),
                views == all(es@),
                lists_arches(self@, views),
                forall|id: Seq<char>| #[trigger]
                    r@.contains_key(id) <==> exists|j: int|
                        0 <= j < i && (#[trigger] views[j]).arch_id == id,
                forall|id: Seq<char>| #[trigger]
                    r@.contains_key(id) ==> r@[id] == top_arch(self@, id),
            decreases es@.len() - i,
        {
            let e = &es[i];
            assert(views[i as int] == es@[i as int]@);
            assert(state_of(self@, views[i as int].arch_id) is Some);
            let row = TopArch {
                stats: self.counters_of(e.arch_id.as_str()),
                mounted: Some(mounted(e)),
            };
            assert(row@ =~= top_arch(self@, e@.arch_id));
            r.insert(e.arch_id.as_str(), row);
            i += 1;
        }
        proof {
            let ids = entry_ids(views);
            assert forall|id: Seq<char>| #[trigger] r@.contains_key(id) <==> state_of(
                self@,
                id,
            ) is Some by {
                if state_of(self@, id) is Some {
                    assert(ids.contains(id));
                    let j = ids.index_of(id);
                    assert(views[j].arch_id == id);
                }
            }
        }
        r
    }

    fn top_arches(&self) -> (r: Table<TopArch>)
        requires
            self.wf(),
        ensures
            r.wf(),
            forall|id: Seq<char>| #[trigger]
                r@.contains_key(id) <==> self@.store.stats.contains_key(id) || state_of(
                    self@,
                    id,
                ) is Some,
            forall|id: Seq<char>| #[trigger] r@.contains_key(id) ==> r@[id] == top_arch(self@, id),
    {
        let mut r = self.top_mounted();
        let mut i: usize = 0;
        while i < self.store.stats.len()
            invariant
                self.wf(),
                r.wf(),
                i <= self.store.stats.keys().len(),
                forall|id: Seq<char>| #[trigger]
                    r@.contains_key(id) <==> state_of(self@, id) is Some || exists|j: int|
                        0 <= j < i && #[trigger] self.store.stats.keys()[j] == id,
                forall|id: Seq<char>| #[trigger]
                    r@.contains_key(id) ==> r@[id] == top_arch(self@, id),
            decreases self.store.stats.keys().len() - i,
        {
            let id = self.store.stats.key_at(i);
            if !r.has(id.as_str()) {
                let row = TopArch { stats: self.counters_of(id.as_str()), mounted: None };
                r.insert(id.as_str(), row);
            }
            i += 1;
        }
        proof {
            self.store.stats.keys_are_domain();
            assert forall|id: Seq<char>| #[trigger]
                r@.contains_key(id) <==> self@.store.stats.contains_key(id) || state_of(
                    self@,
                    id,
                ) is Some by {
                if self@.store.stats.contains_key(id) {
                    let j = self.store.stats.keys().index_of(id);
                    assert(self.store.stats.keys()[j] == id);
                }
            }
        }
        r
    }

    /// The screen, as `ctx` may see it.
    pub fn top(&self, ctx: &Ctx) -> (r: TopView)
        requires
            self.wf(),
        ensures
            r.wf(),
            r@ == top_of(self@, ctx@),
    {
        let arches = self.top_arches();
        let tasks = self.top_tasks(ctx);
        let stopped_scopes = self.stopped_scopes();
        let liveness = self.top_liveness();
        let r = TopView { arches, tasks, stopped_scopes, liveness };
        proof {
            let k = self@;
            one_order(all(stopped_scopes@), |s: Seq<char>| is_stopped(k, s));
            assert(r@.arches =~= top_of(k, ctx@).arches);
            assert(r@.tasks =~= top_of(k, ctx@).tasks);
            assert(r@.liveness =~= top_of(k, ctx@).liveness);
        }
        r
    }
}

} // verus!
