//! Lists in the order of their keys.
use crate::arches::{entry_ids, entry_of, lists_arches, state_of, ArchEntryView};
use crate::adapter::ArchAdapter;
use crate::kernel::KernelView;
use crate::principal::CtxView;
use crate::store::StoreView;
use crate::table::{ascending, same_keys_same_order};
use crate::task::TaskView;
use crate::tasks::{lists_visible, seen, task_ids};
use vstd::prelude::*;

verus! {

/// Whether `l` is everything that `p` holds of, in order.
pub open spec fn is_in_order(l: Seq<Seq<char>>, p: spec_fn(Seq<char>) -> bool) -> bool {
    &&& ascending(l)
    &&& forall|x: Seq<char>| #[trigger] l.contains(x) <==> p(x)
}

/// Everything that `p` holds of, in order, where that can be listed.
pub open spec fn in_order(p: spec_fn(Seq<char>) -> bool) -> Seq<Seq<char>> {
    choose|l: Seq<Seq<char>>| #[trigger] is_in_order(l, p)
}

/// There is one such list.
pub proof fn one_order(l: Seq<Seq<char>>, p: spec_fn(Seq<char>) -> bool)
    requires
        is_in_order(l, p),
    ensures
        in_order(p) == l,
{
    let m = in_order(p);
    assert(is_in_order(m, p));
    assert forall|x: Seq<char>| l.contains(x) implies #[trigger] m.contains(x) by {
        assert(p(x));
    }
    assert forall|x: Seq<char>| m.contains(x) implies #[trigger] l.contains(x) by {
        assert(p(x));
    }
    same_keys_same_order(m, l);
}

/// Every mounted arch, in the order of ids.
pub open spec fn arch_listing<A: ArchAdapter>(k: KernelView<A>) -> Seq<ArchEntryView> {
    in_order(|id: Seq<char>| state_of(k, id) is Some).map_values(|id: Seq<char>| entry_of(k, id))
}

/// There is one list of arches.
pub proof fn arches_are_listed_one_way<A: ArchAdapter>(k: KernelView<A>, es: Seq<ArchEntryView>)
    requires
        lists_arches(k, es),
    ensures
        es == arch_listing(k),
        entry_ids(es) == in_order(|id: Seq<char>| state_of(k, id) is Some),
{
    let p = |id: Seq<char>| state_of(k, id) is Some;
    let ids = entry_ids(es);
    assert forall|x: Seq<char>| #[trigger] ids.contains(x) <==> p(x) by {
        if ids.contains(x) {
            let i = ids.index_of(x);
            assert(es[i].arch_id == x);
        }
    }
    one_order(ids, p);
    assert forall|i: int| 0 <= i < es.len() implies es[i] == arch_listing(k)[i] by {
        assert(ids[i] == es[i].arch_id);
    }
    assert(es =~= arch_listing(k));
}

/// Every task that `ctx` may see, in the order of ids.
pub open spec fn task_listing(s: StoreView, ctx: CtxView) -> Seq<TaskView> {
    in_order(|id: Seq<char>| seen(s, ctx, id) is Some).map_values(
        |id: Seq<char>| seen(s, ctx, id)->0,
    )
}

/// There is one list of tasks.
pub proof fn tasks_are_listed_one_way(s: StoreView, ctx: CtxView, ts: Seq<TaskView>)
    requires
        lists_visible(s, ctx, ts),
    ensures
        ts == task_listing(s, ctx),
        task_ids(ts) == in_order(|id: Seq<char>| seen(s, ctx, id) is Some),
{
    let p = |id: Seq<char>| seen(s, ctx, id) is Some;
    let ids = task_ids(ts);
    assert forall|x: Seq<char>| #[trigger] ids.contains(x) <==> p(x) by {
        if ids.contains(x) {
            let i = ids.index_of(x);
            assert(ts[i].id == x);
        }
    }
    one_order(ids, p);
    assert forall|i: int| 0 <= i < ts.len() implies ts[i] == task_listing(s, ctx)[i] by {
        assert(ids[i] == ts[i].id);
    }
    assert(ts =~= task_listing(s, ctx));
}

} // verus!
