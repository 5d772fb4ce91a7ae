//! What a node shows of itself: everything that is there, each under its own name, and nothing
//! that is not.
use crate::adapter::ArchAdapter;
use crate::arches::{entry_of, state_of, ArchEntryView};
use crate::devices::passkey_of;
use crate::error::KernelErrorView;
use crate::json::{bool_field, field, member, number_field, text_field, JsonView};
use crate::kernel::KernelView;
use crate::listing::{in_order, is_in_order, one_order, task_listing};
use crate::manifest::locality_text;
use crate::ns::{
    entry_at, full_address, last_piece_grows, nonempty, path_parts, tail, ArchRowView, EntryView,
};
use crate::path::pieces;
use crate::principal::CtxView;
use crate::reading_laws::{member_is_found, nothing_is_found};
use crate::screens::{
    arch_entry_json, arch_list_json, arch_row_json, arch_state_json, arch_states_json,
    boot_info_json, cell, column_json, decisions_json, entry_json, last_events, passkey_json,
    passkey_list_json, stats_json, tail_json, top_json, total_of, Column,
};
use crate::store::{ArchStatsView, LedgerEventView, StoreView};
use crate::table::ascending;
use crate::task::status_text;
use crate::tasks::{seen, DecisionsAfterStepView};
use crate::text::{before, before_irreflexive, begins};
use crate::top::{top_of, TopArchView, TopScreen};
use crate::wire::{envelope_json, event_list, manifest_json, task_json};
use crate::wire_laws::lists_texts;
use vstd::prelude::*;

verus! {

/// The screen has every arch that is mounted or was called, with its own counters and, while it
/// is mounted, what its own manifest says of it and how it stands.
pub proof fn screen_has_every_arch<A: ArchAdapter>(k: KernelView<A>, ctx: CtxView, id: Seq<char>)
    ensures
        ({
            let t = top_of(k, ctx);
            let a = t.arches[id];
            let ready = k.adapters.contains_key(id);
            let starting = !ready && k.starting.contains_key(id);
            let down = !ready && !starting && k.unavailable.contains_key(id);
            let m = if ready {
                k.adapters[id].declared()
            } else if starting {
                k.starting[id].manifest
            } else {
                k.unavailable[id].manifest
            };
            &&& t.arches.contains_key(id) <==> k.store.stats.contains_key(id) || ready || starting
                || down
            &&& t.arches.contains_key(id) && k.store.stats.contains_key(id) ==> a.stats
                == k.store.stats[id]
            &&& t.arches.contains_key(id) && !k.store.stats.contains_key(id) ==> a.stats.calls == 0
                && a.stats.tokens_in == 0 && a.stats.tokens_in_measured == 0 && a.stats.projected
                == 0 && a.stats.costs.len() == 0
            &&& t.arches.contains_key(id) ==> (a.mounted is Some <==> ready || starting || down)
            &&& ready || starting || down ==> {
                &&& a.mounted->0.governed == m.governed
                &&& a.mounted->0.price_eur_per_1k == m.cost_per_1k_tokens_eur
                &&& a.mounted->0.locality == locality_text(m.locality)
                &&& a.mounted->0.jurisdiction == m.jurisdiction
            }
            &&& ready ==> a.mounted->0.state == "ready"@ && a.mounted->0.unavailable is None
            &&& starting ==> a.mounted->0.state == "starting"@ && a.mounted->0.unavailable is None
            &&& down ==> a.mounted->0.state == "unavailable"@ && a.mounted->0.unavailable == Some(
                k.unavailable[id].reason,
            )
        }),
{
}

/// The screen has every task that the caller may see, and how it stands; every scope that is
/// stopped, in order; and until when each business is live.
pub proof fn screen_has_every_task<A: ArchAdapter>(
    k: KernelView<A>,
    ctx: CtxView,
    id: Seq<char>,
    stopped: Seq<Seq<char>>,
)
    requires
        is_in_order(stopped, |s: Seq<char>| crate::stops::is_stopped(k, s)),
    ensures
        ({
            let t = top_of(k, ctx);
            &&& t.tasks.contains_key(id) <==> seen(k.store, ctx, id) is Some
            &&& t.tasks.contains_key(id) ==> t.tasks[id] == k.store.tasks[id].status
            &&& t.stopped_scopes == stopped
            &&& t.liveness.contains_key(id) <==> k.store.liveness.contains_key(id)
            &&& t.liveness.contains_key(id) ==> t.liveness[id] == k.store.liveness[id].expires_at_ms
        }),
{
    one_order(stopped, |s: Seq<char>| crate::stops::is_stopped(k, s));
}

/// Those of a list that something holds of.
spec fn kept(l: Seq<Seq<char>>, q: spec_fn(Seq<char>) -> bool) -> Seq<Seq<char>>
    decreases l.len(),
{
    if l.len() == 0 {
        Seq::empty()
    } else if q(l.last()) {
        kept(l.drop_last(), q).push(l.last())
    } else {
        kept(l.drop_last(), q)
    }
}

proof fn kept_is_of_the_list(l: Seq<Seq<char>>, q: spec_fn(Seq<char>) -> bool)
    ensures
        forall|x: Seq<char>| #[trigger] kept(l, q).contains(x) <==> l.contains(x) && q(x),
    decreases l.len(),
{
    if l.len() > 0 {
        let front = l.drop_last();
        kept_is_of_the_list(front, q);
        assert forall|x: Seq<char>| #[trigger] kept(l, q).contains(x) <==> l.contains(x) && q(x) by {
            assert(l.contains(x) <==> front.contains(x) || x == l.last()) by {
                if front.contains(x) {
                    let i = choose|i: int| 0 <= i < front.len() && front[i] == x;
                    assert(l[i] == x);
                }
                if l.contains(x) && x != l.last() {
                    let i = choose|i: int| 0 <= i < l.len() && l[i] == x;
                    assert(front[i] == x);
                }
                assert(l[l.len() - 1] == l.last());
            }
            let k = kept(front, q);
            if q(l.last()) {
                assert(kept(l, q).contains(x) <==> k.contains(x) || x == l.last()) by {
                    let n = k.push(l.last());
                    if k.contains(x) {
                        let i = choose|i: int| 0 <= i < k.len() && k[i] == x;
                        assert(n[i] == x);
                    }
                    assert(n[k.len() as int] == l.last());
                    if n.contains(x) && x != l.last() {
                        let i = choose|i: int| 0 <= i < n.len() && n[i] == x;
                        assert(k[i] == x);
                    }
                }
            }
        }
    }
}

proof fn kept_is_ascending(l: Seq<Seq<char>>, q: spec_fn(Seq<char>) -> bool)
    requires
        ascending(l),
    ensures
        ascending(kept(l, q)),
    decreases l.len(),
{
    if l.len() > 0 {
        let front = l.drop_last();
        assert(ascending(front)) by {
            assert forall|i: int, j: int|
                #![trigger front[i], front[j]]
                0 <= i < j < front.len() implies before(front[i], front[j]) by {
                assert(front[i] == l[i] && front[j] == l[j]);
            }
        }
        kept_is_ascending(front, q);
        kept_is_of_the_list(front, q);
        if q(l.last()) {
            let k = kept(front, q);
            let n = k.push(l.last());
            assert forall|i: int, j: int|
                #![trigger n[i], n[j]]
                0 <= i < j < n.len() implies before(n[i], n[j]) by {
                if j < k.len() {
                    assert(n[i] == k[i] && n[j] == k[j]);
                } else {
                    assert(k.contains(k[i]));
                    let at = choose|at: int| 0 <= at < front.len() && front[at] == k[i];
                    assert(l[at] == n[i]);
                    assert(l[l.len() - 1] == n[j]);
                }
            }
        }
    }
}

/// Where everything that `p` holds of can be listed, so can what `q` holds of besides.
proof fn part_is_in_order(
    l: Seq<Seq<char>>,
    p: spec_fn(Seq<char>) -> bool,
    both: spec_fn(Seq<char>) -> bool,
)
    requires
        is_in_order(l, p),
        forall|x: Seq<char>| #[trigger] both(x) ==> p(x),
    ensures
        is_in_order(in_order(both), both),
{
    kept_is_of_the_list(l, both);
    kept_is_ascending(l, both);
    let part = kept(l, both);
    assert(is_in_order(part, both));
}

/// What an object with a member for each of a list has under a name.
proof fn listed_member(l: Seq<Seq<char>>, f: spec_fn(Seq<char>) -> (Seq<char>, JsonView), id: Seq<char>)
    requires
        ascending(l),
        forall|x: Seq<char>| (#[trigger] f(x)).0 == x,
    ensures
        l.contains(id) ==> member(l.map_values(f), id) == Some(f(id).1),
        !l.contains(id) ==> member(l.map_values(f), id) is None,
{
    let ms = l.map_values(f);
    if l.contains(id) {
        let i = choose|i: int| 0 <= i < l.len() && l[i] == id;
        assert forall|j: int| 0 <= j < i implies (#[trigger] ms[j]).0 != ms[i].0 by {
            assert(before(l[j], l[i]));
            before_irreflexive(l[i]);
        }
        member_is_found(ms, i);
    } else {
        assert forall|i: int| 0 <= i < ms.len() implies (#[trigger] ms[i]).0 != id by {
            assert(l.contains(l[i]));
        }
        nothing_is_found(ms, id);
    }
}

/// What stands in a column of the screen beside an id.
pub open spec fn shown(told: JsonView, column: Seq<char>, id: Seq<char>) -> Option<JsonView> {
    match field(told, column) {
        Some(v) => field(v, id),
        None => None,
    }
}

proof fn column_has_each_cell(
    m: Map<Seq<char>, TopArchView>,
    c: Column,
    totals: Map<Seq<char>, Seq<char>>,
    ids: Seq<Seq<char>>,
    id: Seq<char>,
)
    requires
        is_in_order(ids, |x: Seq<char>| m.contains_key(x)),
    ensures
        field(column_json(m, c, totals), id) == (if m.contains_key(id) {
            cell(c, m[id], total_of(totals, id))
        } else {
            None
        }),
{
    let p = |x: Seq<char>| m.contains_key(x);
    let both = |x: Seq<char>| m.contains_key(x) && cell(c, m[x], total_of(totals, x)) is Some;
    let f = |x: Seq<char>| (x, cell(c, m[x], total_of(totals, x))->0);
    part_is_in_order(ids, p, both);
    let l = in_order(both);
    assert(l.contains(id) <==> both(id));
    listed_member(l, f, id);
}

/// The screen on the wire has each arch in every column that it belongs to, each with what the
/// screen says of that arch: its own counters and its own price; and, where it is mounted, the
/// rest.
pub proof fn screen_is_told_in_full(
    t: TopScreen,
    totals: Map<Seq<char>, Seq<char>>,
    ids: Seq<Seq<char>>,
    id: Seq<char>,
)
    requires
        is_in_order(ids, |x: Seq<char>| t.arches.contains_key(x)),
    ensures
        ({
            let told = top_json(t, totals);
            let a = t.arches[id];
            let m = a.mounted->0;
            let there = t.arches.contains_key(id);
            let mounted = there && a.mounted is Some;
            &&& there <==> shown(told, "arches"@, id) is Some
            &&& there && totals.contains_key(id) ==> shown(told, "arches"@, id) == Some(
                stats_json(a.stats, totals[id]),
            )
            &&& there && !totals.contains_key(id) ==> shown(told, "arches"@, id) == Some(
                stats_json(a.stats, "0.0"@),
            )
            &&& mounted ==> {
                &&& shown(told, "governed"@, id) == Some(JsonView::Bool(m.governed))
                &&& shown(told, "states"@, id) == Some(JsonView::Text(m.state))
                &&& m.unavailable is Some ==> shown(told, "unavailable"@, id) == Some(
                    JsonView::Text(m.unavailable->0),
                )
                &&& m.unavailable is None ==> shown(told, "unavailable"@, id) is None
                &&& m.price_eur_per_1k is Some ==> shown(told, "price_eur_per_1k"@, id) == Some(
                    JsonView::Real(m.price_eur_per_1k->0),
                )
                &&& m.price_eur_per_1k is None ==> shown(told, "price_eur_per_1k"@, id) == Some(
                    JsonView::Null,
                )
                &&& shown(told, "locality"@, id) == Some(JsonView::Text(m.locality))
                &&& shown(told, "jurisdiction"@, id) == Some(JsonView::Text(m.jurisdiction))
            }
            &&& !mounted ==> {
                &&& shown(told, "governed"@, id) is None
                &&& shown(told, "states"@, id) is None
                &&& shown(told, "unavailable"@, id) is None
                &&& shown(told, "price_eur_per_1k"@, id) is None
                &&& shown(told, "locality"@, id) is None
                &&& shown(told, "jurisdiction"@, id) is None
            }
        }),
{
    let ms = top_json(t, totals)->Object_0;
    reveal_strlit("arches");
    reveal_strlit("governed");
    reveal_strlit("states");
    reveal_strlit("unavailable");
    reveal_strlit("price_eur_per_1k");
    reveal_strlit("locality");
    reveal_strlit("jurisdiction");
    reveal_strlit("tasks");
    reveal_strlit("stopped_scopes");
    reveal_strlit("liveness");
    assert(member(ms, "arches"@) == Some(ms[0].1)) by {
        member_is_found(ms, 0);
    }
    assert(member(ms, "governed"@) == Some(ms[1].1)) by {
        assert("arches"@.len() != "governed"@.len());
        member_is_found(ms, 1);
    }
    assert(member(ms, "states"@) == Some(ms[2].1)) by {
        assert("arches"@[0] != "states"@[0]);
        assert("governed"@.len() != "states"@.len());
        member_is_found(ms, 2);
    }
    assert(member(ms, "unavailable"@) == Some(ms[3].1)) by {
        assert("arches"@.len() != "unavailable"@.len());
        assert("governed"@.len() != "unavailable"@.len());
        assert("states"@.len() != "unavailable"@.len());
        member_is_found(ms, 3);
    }
    assert(member(ms, "price_eur_per_1k"@) == Some(ms[4].1)) by {
        assert("arches"@.len() != "price_eur_per_1k"@.len());
        assert("governed"@.len() != "price_eur_per_1k"@.len());
        assert("states"@.len() != "price_eur_per_1k"@.len());
        assert("unavailable"@.len() != "price_eur_per_1k"@.len());
        member_is_found(ms, 4);
    }
    assert(member(ms, "locality"@) == Some(ms[5].1)) by {
        assert("arches"@.len() != "locality"@.len());
        assert("governed"@[0] != "locality"@[0]);
        assert("states"@.len() != "locality"@.len());
        assert("unavailable"@.len() != "locality"@.len());
        assert("price_eur_per_1k"@.len() != "locality"@.len());
        member_is_found(ms, 5);
    }
    assert(member(ms, "jurisdiction"@) == Some(ms[6].1)) by {
        assert("arches"@.len() != "jurisdiction"@.len());
        assert("governed"@.len() != "jurisdiction"@.len());
        assert("states"@.len() != "jurisdiction"@.len());
        assert("unavailable"@.len() != "jurisdiction"@.len());
        assert("price_eur_per_1k"@.len() != "jurisdiction"@.len());
        assert("locality"@.len() != "jurisdiction"@.len());
        member_is_found(ms, 6);
    }
    column_has_each_cell(t.arches, Column::Stats, totals, ids, id);
    column_has_each_cell(t.arches, Column::Governed, totals, ids, id);
    column_has_each_cell(t.arches, Column::State, totals, ids, id);
    column_has_each_cell(t.arches, Column::Unavailable, totals, ids, id);
    column_has_each_cell(t.arches, Column::Price, totals, ids, id);
    column_has_each_cell(t.arches, Column::Locality, totals, ids, id);
    column_has_each_cell(t.arches, Column::Jurisdiction, totals, ids, id);
}

/// The screen on the wire has each task with its status and each business with its end, and the
/// stopped scopes in their order.
pub proof fn screen_tasks_are_told_in_full(
    t: TopScreen,
    totals: Map<Seq<char>, Seq<char>>,
    tasks: Seq<Seq<char>>,
    businesses: Seq<Seq<char>>,
    id: Seq<char>,
)
    requires
        is_in_order(tasks, |x: Seq<char>| t.tasks.contains_key(x)),
        is_in_order(businesses, |x: Seq<char>| t.liveness.contains_key(x)),
    ensures
        ({
            let told = top_json(t, totals);
            &&& t.tasks.contains_key(id) ==> shown(told, "tasks"@, id) == Some(
                JsonView::Text(status_text(t.tasks[id])),
            )
            &&& !t.tasks.contains_key(id) ==> shown(told, "tasks"@, id) is None
            &&& t.liveness.contains_key(id) ==> shown(told, "liveness"@, id) == Some(
                JsonView::Unsigned(t.liveness[id] as nat),
            )
            &&& !t.liveness.contains_key(id) ==> shown(told, "liveness"@, id) is None
            &&& field(told, "stopped_scopes"@) is Some
            &&& lists_texts(field(told, "stopped_scopes"@)->0, t.stopped_scopes)
        }),
{
    let ms = top_json(t, totals)->Object_0;
    reveal_strlit("arches");
    reveal_strlit("governed");
    reveal_strlit("states");
    reveal_strlit("unavailable");
    reveal_strlit("price_eur_per_1k");
    reveal_strlit("locality");
    reveal_strlit("jurisdiction");
    reveal_strlit("tasks");
    reveal_strlit("stopped_scopes");
    reveal_strlit("liveness");
    assert(member(ms, "tasks"@) == Some(ms[7].1)) by {
        assert("arches"@.len() != "tasks"@.len());
        assert("governed"@.len() != "tasks"@.len());
        assert("states"@.len() != "tasks"@.len());
        assert("unavailable"@.len() != "tasks"@.len());
        assert("price_eur_per_1k"@.len() != "tasks"@.len());
        assert("locality"@.len() != "tasks"@.len());
        assert("jurisdiction"@.len() != "tasks"@.len());
        member_is_found(ms, 7);
    }
    assert(member(ms, "stopped_scopes"@) == Some(ms[8].1)) by {
        assert("arches"@.len() != "stopped_scopes"@.len());
        assert("governed"@.len() != "stopped_scopes"@.len());
        assert("states"@.len() != "stopped_scopes"@.len());
        assert("unavailable"@.len() != "stopped_scopes"@.len());
        assert("price_eur_per_1k"@.len() != "stopped_scopes"@.len());
        assert("locality"@.len() != "stopped_scopes"@.len());
        assert("jurisdiction"@.len() != "stopped_scopes"@.len());
        assert("tasks"@.len() != "stopped_scopes"@.len());
        member_is_found(ms, 8);
    }
    assert(member(ms, "liveness"@) == Some(ms[9].1)) by {
        assert("arches"@.len() != "liveness"@.len());
        assert("governed"@[0] != "liveness"@[0]);
        assert("states"@.len() != "liveness"@.len());
        assert("unavailable"@.len() != "liveness"@.len());
        assert("price_eur_per_1k"@.len() != "liveness"@.len());
        assert("locality"@[1] != "liveness"@[1]);
        assert("jurisdiction"@.len() != "liveness"@.len());
        assert("tasks"@.len() != "liveness"@.len());
        assert("stopped_scopes"@.len() != "liveness"@.len());
        member_is_found(ms, 9);
    }
    let p = |x: Seq<char>| t.tasks.contains_key(x);
    one_order(tasks, p);
    assert(tasks.contains(id) <==> p(id));
    listed_member(tasks, |x: Seq<char>| (x, JsonView::Text(status_text(t.tasks[x]))), id);
    let q = |x: Seq<char>| t.liveness.contains_key(x);
    one_order(businesses, q);
    assert(businesses.contains(id) <==> q(id));
    listed_member(businesses, |x: Seq<char>| (x, JsonView::Unsigned(t.liveness[x] as nat)), id);
}

/// The counters of an arch are told as they are, with the price they come to.
pub proof fn counters_are_told_in_full(s: ArchStatsView, total: Seq<char>)
    ensures
        ({
            let told = stats_json(s, total);
            &&& number_field(told, "calls"@) == Some(s.calls as nat)
            &&& number_field(told, "tokens_in"@) == Some(s.tokens_in as nat)
            &&& number_field(told, "tokens_in_measured"@) == Some(s.tokens_in_measured as nat)
            &&& field(told, "cost_list_usd"@) == Some(JsonView::Real(total))
            &&& number_field(told, "projected"@) == Some(s.projected as nat)
        }),
{
    let ms = stats_json(s, total)->Object_0;
    reveal_strlit("calls");
    reveal_strlit("tokens_in");
    reveal_strlit("tokens_in_measured");
    reveal_strlit("cost_list_usd");
    reveal_strlit("projected");
    assert(member(ms, "calls"@) == Some(ms[0].1)) by {
        member_is_found(ms, 0);
    }
    assert(member(ms, "tokens_in"@) == Some(ms[1].1)) by {
        assert("calls"@.len() != "tokens_in"@.len());
        member_is_found(ms, 1);
    }
    assert(member(ms, "tokens_in_measured"@) == Some(ms[2].1)) by {
        assert("calls"@.len() != "tokens_in_measured"@.len());
        assert("tokens_in"@.len() != "tokens_in_measured"@.len());
        member_is_found(ms, 2);
    }
    assert(member(ms, "cost_list_usd"@) == Some(ms[3].1)) by {
        assert("calls"@.len() != "cost_list_usd"@.len());
        assert("tokens_in"@.len() != "cost_list_usd"@.len());
        assert("tokens_in_measured"@.len() != "cost_list_usd"@.len());
        member_is_found(ms, 3);
    }
    assert(member(ms, "projected"@) == Some(ms[4].1)) by {
        assert("calls"@.len() != "projected"@.len());
        assert("tokens_in"@[0] != "projected"@[0]);
        assert("tokens_in_measured"@.len() != "projected"@.len());
        assert("cost_list_usd"@.len() != "projected"@.len());
        member_is_found(ms, 4);
    }
}

/// What a step left among the decisions is told as it is.
pub proof fn decisions_are_told_in_full(d: DecisionsAfterStepView)
    ensures
        ({
            let told = decisions_json(d);
            &&& number_field(told, "after_step"@) == Some(d.after_step)
            &&& number_field(told, "count"@) == Some(d.count)
            &&& number_field(told, "last_len_bytes"@) == Some(d.last_len_bytes)
            &&& text_field(told, "last_hash"@) == Some(d.last_hash)
        }),
{
    let ms = decisions_json(d)->Object_0;
    reveal_strlit("after_step");
    reveal_strlit("count");
    reveal_strlit("last_len_bytes");
    reveal_strlit("last_hash");
    assert(member(ms, "after_step"@) == Some(ms[0].1)) by {
        member_is_found(ms, 0);
    }
    assert(member(ms, "count"@) == Some(ms[1].1)) by {
        assert("after_step"@.len() != "count"@.len());
        member_is_found(ms, 1);
    }
    assert(member(ms, "last_len_bytes"@) == Some(ms[2].1)) by {
        assert("after_step"@.len() != "last_len_bytes"@.len());
        assert("count"@.len() != "last_len_bytes"@.len());
        member_is_found(ms, 2);
    }
    assert(member(ms, "last_hash"@) == Some(ms[3].1)) by {
        assert("after_step"@.len() != "last_hash"@.len());
        assert("count"@.len() != "last_hash"@.len());
        assert("last_len_bytes"@.len() != "last_hash"@.len());
        member_is_found(ms, 3);
    }
}

/// The last events of a record are its end: as many as were asked for, or all of them, each in
/// its place.
pub proof fn last_events_are_the_last(events: Seq<LedgerEventView>, n: nat)
    ensures
        events.len() <= n ==> last_events(events, n) == events,
        events.len() > n ==> last_events(events, n).len() == n,
        forall|i: int|
            0 <= i < last_events(events, n).len() ==> #[trigger] last_events(events, n)[i]
                == events[events.len() - last_events(events, n).len() + i],
        tail(events) == last_events(events, 50),
{
}

/// One more event on the record is one more at the end of what is shown of it.
pub proof fn newest_event_is_shown_last(events: Seq<LedgerEventView>, e: LedgerEventView, n: nat)
    requires
        n > 0,
    ensures
        last_events(events.push(e), n).len() > 0,
        last_events(events.push(e), n).last() == e,
        tail(events.push(e)).last() == e,
{
}

/// The end of a record on the wire has each event with what the chain has of that very event.
pub proof fn tail_is_told_with_its_own_chain(
    events: Seq<LedgerEventView>,
    n: nat,
    chain: Seq<JsonView>,
    i: int,
)
    requires
        chain.len() == events.len(),
        0 <= i < events.len(),
        events.len() - i <= n,
        chain[i] is Object,
    ensures
        ({
            let told = tail_json(events, n, chain);
            let at = i - (events.len() - last_events(events, n).len());
            &&& told is Array
            &&& told->Array_0.len() == last_events(events, n).len()
            &&& 0 <= at < told->Array_0.len()
            &&& told->Array_0[at] == crate::wire::event_json(events[i], chain[i]->Object_0)
        }),
{
    let last = last_events(events, n);
    let from = events.len() - last.len();
    assert(crate::wire::link_of(chain, from + (i - from)) == chain[i]->Object_0);
}

/// What a node says of itself when it is asked what it runs: its own name and places, how many
/// arches, devices and events it has, and whether its record holds.
pub proof fn node_says_what_it_runs<A: ArchAdapter>(
    k: KernelView<A>,
    web: Option<Seq<char>>,
    arches: Seq<Seq<char>>,
    devices: Seq<Seq<char>>,
    stopped: Seq<Seq<char>>,
)
    requires
        is_in_order(arches, |id: Seq<char>| state_of(k, id) is Some),
        is_in_order(
            devices,
            |id: Seq<char>| k.devices.contains_key(id) || passkey_of(k.store, id) is Some,
        ),
        is_in_order(stopped, |s: Seq<char>| crate::stops::is_stopped(k, s)),
    ensures
        ({
            let told = boot_info_json(k, web);
            &&& text_field(told, "node_id"@) == Some(k.node_id)
            &&& number_field(told, "arches"@) == Some(arches.len())
            &&& field(told, "arch_states"@) == Some(arch_states_json(k))
            &&& number_field(told, "arches_starting"@) == Some(k.starting.dom().len())
            &&& number_field(told, "devices"@) == Some(devices.len())
            &&& number_field(told, "ledger_len"@) == Some(k.store.ledger.len())
            &&& bool_field(told, "ledger_ok"@) == Some(k.record.chain_ok && k.record.head_ok)
            &&& bool_field(told, "forced"@) == Some(k.forced_boot)
            &&& bool_field(told, "recovered_partial_line"@) == Some(k.record.recovered_partial_line)
            &&& field(told, "stopped_scopes"@) is Some
            &&& lists_texts(field(told, "stopped_scopes"@)->0, stopped)
            &&& text_field(told, "policies_version"@) == k.store.policies_version
            &&& text_field(told, "state_dir"@) == Some(k.store.state_dir)
            &&& text_field(told, "export_root"@) == Some(crate::scheduler::export_root_of(k.store))
            &&& text_field(told, "web"@) == web
        }),
{
    let ms = boot_info_json(k, web)->Object_0;
    reveal_strlit("node_id");
    reveal_strlit("arches");
    reveal_strlit("arch_states");
    reveal_strlit("arches_starting");
    reveal_strlit("devices");
    reveal_strlit("ledger_len");
    reveal_strlit("ledger_ok");
    reveal_strlit("forced");
    reveal_strlit("recovered_partial_line");
    reveal_strlit("stopped_scopes");
    reveal_strlit("policies_version");
    reveal_strlit("state_dir");
    reveal_strlit("export_root");
    reveal_strlit("web");
    assert(member(ms, "node_id"@) == Some(ms[0].1)) by {
        member_is_found(ms, 0);
    }
    assert(member(ms, "arches"@) == Some(ms[1].1)) by {
        assert("node_id"@.len() != "arches"@.len());
        member_is_found(ms, 1);
    }
    assert(member(ms, "arch_states"@) == Some(ms[2].1)) by {
        assert("node_id"@.len() != "arch_states"@.len());
        assert("arches"@.len() != "arch_states"@.len());
        member_is_found(ms, 2);
    }
    assert(member(ms, "arches_starting"@) == Some(ms[3].1)) by {
        assert("node_id"@.len() != "arches_starting"@.len());
        assert("arches"@.len() != "arches_starting"@.len());
        assert("arch_states"@.len() != "arches_starting"@.len());
        member_is_found(ms, 3);
    }
    assert(member(ms, "devices"@) == Some(ms[4].1)) by {
        assert("node_id"@[0] != "devices"@[0]);
        assert("arches"@.len() != "devices"@.len());
        assert("arch_states"@.len() != "devices"@.len());
        assert("arches_starting"@.len() != "devices"@.len());
        member_is_found(ms, 4);
    }
    assert(member(ms, "ledger_len"@) == Some(ms[5].1)) by {
        assert("node_id"@.len() != "ledger_len"@.len());
        assert("arches"@.len() != "ledger_len"@.len());
        assert("arch_states"@.len() != "ledger_len"@.len());
        assert("arches_starting"@.len() != "ledger_len"@.len());
        assert("devices"@.len() != "ledger_len"@.len());
        member_is_found(ms, 5);
    }
    assert(member(ms, "ledger_ok"@) == Some(ms[6].1)) by {
        assert("node_id"@.len() != "ledger_ok"@.len());
        assert("arches"@.len() != "ledger_ok"@.len());
        assert("arch_states"@.len() != "ledger_ok"@.len());
        assert("arches_starting"@.len() != "ledger_ok"@.len());
        assert("devices"@.len() != "ledger_ok"@.len());
        assert("ledger_len"@.len() != "ledger_ok"@.len());
        member_is_found(ms, 6);
    }
    assert(member(ms, "forced"@) == Some(ms[7].1)) by {
        assert("node_id"@.len() != "forced"@.len());
        assert("arches"@[0] != "forced"@[0]);
        assert("arch_states"@.len() != "forced"@.len());
        assert("arches_starting"@.len() != "forced"@.len());
        assert("devices"@.len() != "forced"@.len());
        assert("ledger_len"@.len() != "forced"@.len());
        assert("ledger_ok"@.len() != "forced"@.len());
        member_is_found(ms, 7);
    }
    assert(member(ms, "recovered_partial_line"@) == Some(ms[8].1)) by {
        assert("node_id"@.len() != "recovered_partial_line"@.len());
        assert("arches"@.len() != "recovered_partial_line"@.len());
        assert("arch_states"@.len() != "recovered_partial_line"@.len());
        assert("arches_starting"@.len() != "recovered_partial_line"@.len());
        assert("devices"@.len() != "recovered_partial_line"@.len());
        assert("ledger_len"@.len() != "recovered_partial_line"@.len());
        assert("ledger_ok"@.len() != "recovered_partial_line"@.len());
        assert("forced"@.len() != "recovered_partial_line"@.len());
        member_is_found(ms, 8);
    }
    assert(member(ms, "stopped_scopes"@) == Some(ms[9].1)) by {
        assert("node_id"@.len() != "stopped_scopes"@.len());
        assert("arches"@.len() != "stopped_scopes"@.len());
        assert("arch_states"@.len() != "stopped_scopes"@.len());
        assert("arches_starting"@.len() != "stopped_scopes"@.len());
        assert("devices"@.len() != "stopped_scopes"@.len());
        assert("ledger_len"@.len() != "stopped_scopes"@.len());
        assert("ledger_ok"@.len() != "stopped_scopes"@.len());
        assert("forced"@.len() != "stopped_scopes"@.len());
        assert("recovered_partial_line"@.len() != "stopped_scopes"@.len());
        member_is_found(ms, 9);
    }
    assert(member(ms, "policies_version"@) == Some(ms[10].1)) by {
        assert("node_id"@.len() != "policies_version"@.len());
        assert("arches"@.len() != "policies_version"@.len());
        assert("arch_states"@.len() != "policies_version"@.len());
        assert("arches_starting"@.len() != "policies_version"@.len());
        assert("devices"@.len() != "policies_version"@.len());
        assert("ledger_len"@.len() != "policies_version"@.len());
        assert("ledger_ok"@.len() != "policies_version"@.len());
        assert("forced"@.len() != "policies_version"@.len());
        assert("recovered_partial_line"@.len() != "policies_version"@.len());
        assert("stopped_scopes"@.len() != "policies_version"@.len());
        member_is_found(ms, 10);
    }
    assert(member(ms, "state_dir"@) == Some(ms[11].1)) by {
        assert("node_id"@.len() != "state_dir"@.len());
        assert("arches"@.len() != "state_dir"@.len());
        assert("arch_states"@.len() != "state_dir"@.len());
        assert("arches_starting"@.len() != "state_dir"@.len());
        assert("devices"@.len() != "state_dir"@.len());
        assert("ledger_len"@.len() != "state_dir"@.len());
        assert("ledger_ok"@[0] != "state_dir"@[0]);
        assert("forced"@.len() != "state_dir"@.len());
        assert("recovered_partial_line"@.len() != "state_dir"@.len());
        assert("stopped_scopes"@.len() != "state_dir"@.len());
        assert("policies_version"@.len() != "state_dir"@.len());
        member_is_found(ms, 11);
    }
    assert(member(ms, "export_root"@) == Some(ms[12].1)) by {
        assert("node_id"@.len() != "export_root"@.len());
        assert("arches"@.len() != "export_root"@.len());
        assert("arch_states"@[0] != "export_root"@[0]);
        assert("arches_starting"@.len() != "export_root"@.len());
        assert("devices"@.len() != "export_root"@.len());
        assert("ledger_len"@.len() != "export_root"@.len());
        assert("ledger_ok"@.len() != "export_root"@.len());
        assert("forced"@.len() != "export_root"@.len());
        assert("recovered_partial_line"@.len() != "export_root"@.len());
        assert("stopped_scopes"@.len() != "export_root"@.len());
        assert("policies_version"@.len() != "export_root"@.len());
        assert("state_dir"@.len() != "export_root"@.len());
        member_is_found(ms, 12);
    }
    assert(member(ms, "web"@) == Some(ms[13].1)) by {
        assert("node_id"@.len() != "web"@.len());
        assert("arches"@.len() != "web"@.len());
        assert("arch_states"@.len() != "web"@.len());
        assert("arches_starting"@.len() != "web"@.len());
        assert("devices"@.len() != "web"@.len());
        assert("ledger_len"@.len() != "web"@.len());
        assert("ledger_ok"@.len() != "web"@.len());
        assert("forced"@.len() != "web"@.len());
        assert("recovered_partial_line"@.len() != "web"@.len());
        assert("stopped_scopes"@.len() != "web"@.len());
        assert("policies_version"@.len() != "web"@.len());
        assert("state_dir"@.len() != "web"@.len());
        assert("export_root"@.len() != "web"@.len());
        member_is_found(ms, 13);
    }
    one_order(arches, |id: Seq<char>| state_of(k, id) is Some);
    one_order(
        devices,
        |id: Seq<char>| k.devices.contains_key(id) || passkey_of(k.store, id) is Some,
    );
    one_order(stopped, |s: Seq<char>| crate::stops::is_stopped(k, s));
}

/// A mounted arch is listed under its own id, with its manifest, its state and, where it cannot
/// be called, why.
pub proof fn arch_is_listed_in_full(e: ArchEntryView)
    ensures
        ({
            let told = arch_entry_json(e);
            &&& text_field(told, "arch_id"@) == Some(e.arch_id)
            &&& field(told, "manifest"@) == Some(manifest_json(e.manifest))
            &&& text_field(told, "state"@) == Some("ready"@) <==> e.state is Ready
            &&& text_field(told, "state"@) == Some("starting"@) <==> e.state is Starting
            &&& text_field(told, "state"@) == Some("unavailable"@) <==> e.state is Unavailable
            &&& e.state is Unavailable ==> text_field(told, "reason"@) == Some(
                e.state->Unavailable_0,
            )
            &&& e.state !is Unavailable ==> field(told, "reason"@) == Some(JsonView::Null)
        }),
{
    let ms = arch_entry_json(e)->Object_0;
    reveal_strlit("arch_id");
    reveal_strlit("manifest");
    reveal_strlit("state");
    reveal_strlit("reason");
    assert(member(ms, "arch_id"@) == Some(ms[0].1)) by {
        member_is_found(ms, 0);
    }
    assert(member(ms, "manifest"@) == Some(ms[1].1)) by {
        assert("arch_id"@.len() != "manifest"@.len());
        member_is_found(ms, 1);
    }
    assert(member(ms, "state"@) == Some(ms[2].1)) by {
        assert("arch_id"@.len() != "state"@.len());
        assert("manifest"@.len() != "state"@.len());
        member_is_found(ms, 2);
    }
    assert(member(ms, "reason"@) == Some(ms[3].1)) by {
        assert("arch_id"@.len() != "reason"@.len());
        assert("manifest"@.len() != "reason"@.len());
        assert("state"@.len() != "reason"@.len());
        member_is_found(ms, 3);
    }
    reveal_strlit("ready");
    reveal_strlit("starting");
    reveal_strlit("unavailable");
    assert("ready"@.len() != "starting"@.len());
    assert("ready"@.len() != "unavailable"@.len());
    assert("starting"@.len() != "unavailable"@.len());
}

/// The state of an arch is told under its own id with, where it cannot be called, why.
pub proof fn arch_state_is_told_in_full(e: ArchEntryView)
    ensures
        ({
            let told = arch_state_json(e);
            &&& text_field(told, "arch_id"@) == Some(e.arch_id)
            &&& field(told, "state"@) == field(arch_entry_json(e), "state"@)
            &&& field(told, "reason"@) == field(arch_entry_json(e), "reason"@)
        }),
{
    let ms = arch_state_json(e)->Object_0;
    reveal_strlit("arch_id");
    reveal_strlit("state");
    reveal_strlit("reason");
    assert(member(ms, "arch_id"@) == Some(ms[0].1)) by {
        member_is_found(ms, 0);
    }
    assert(member(ms, "state"@) == Some(ms[1].1)) by {
        assert("arch_id"@.len() != "state"@.len());
        member_is_found(ms, 1);
    }
    assert(member(ms, "reason"@) == Some(ms[2].1)) by {
        assert("arch_id"@.len() != "reason"@.len());
        assert("state"@.len() != "reason"@.len());
        member_is_found(ms, 2);
    }
    arch_is_listed_in_full(e);
    let es = arch_entry_json(e)->Object_0;
    reveal_strlit("manifest");
    assert("arch_id"@.len() != "manifest"@.len());
    assert(member(es, "state"@) == Some(es[2].1)) by {
        assert("manifest"@.len() != "state"@.len());
        member_is_found(es, 2);
    }
    assert(member(es, "reason"@) == Some(es[3].1)) by {
        assert("manifest"@.len() != "reason"@.len());
        member_is_found(es, 3);
    }
}

/// Every mounted arch is listed, each once and in the order of ids.
pub proof fn arches_are_listed_in_order<A: ArchAdapter>(k: KernelView<A>, ids: Seq<Seq<char>>)
    requires
        is_in_order(ids, |id: Seq<char>| state_of(k, id) is Some),
    ensures
        arch_list_json(k)->Array_0.len() == ids.len(),
        arch_states_json(k)->Array_0.len() == ids.len(),
        forall|i: int|
            0 <= i < ids.len() ==> #[trigger] arch_list_json(k)->Array_0[i] == arch_entry_json(
                entry_of(k, ids[i]),
            ),
        forall|i: int|
            0 <= i < ids.len() ==> #[trigger] arch_states_json(k)->Array_0[i] == arch_state_json(
                entry_of(k, ids[i]),
            ),
        arch_list_json(k) is Array,
        arch_states_json(k) is Array,
{
    one_order(ids, |id: Seq<char>| state_of(k, id) is Some);
}

/// Every passkey is listed by its device and when it was enrolled, each once and in the order of
/// ids.
pub proof fn passkeys_are_listed_in_order(s: StoreView, ids: Seq<Seq<char>>, i: int)
    requires
        is_in_order(ids, |id: Seq<char>| passkey_of(s, id) is Some),
        0 <= i < ids.len(),
    ensures
        passkey_list_json(s) is Array,
        passkey_list_json(s)->Array_0.len() == ids.len(),
        text_field(passkey_list_json(s)->Array_0[i], "device_id"@) == Some(ids[i]),
        number_field(passkey_list_json(s)->Array_0[i], "enrolled_ms"@) == Some(
            s.devices[ids[i]].enrolled_ms as nat,
        ),
{
    let p = |id: Seq<char>| passkey_of(s, id) is Some;
    one_order(ids, p);
    assert(ids.contains(ids[i]));
    assert(p(ids[i]));
    let row = passkey_of(s, ids[i])->0;
    assert(passkey_list_json(s)->Array_0[i] == passkey_json(row));
    let ms = passkey_json(row)->Object_0;
    reveal_strlit("device_id");
    reveal_strlit("enrolled_ms");
    assert(member(ms, "device_id"@) == Some(ms[0].1)) by {
        member_is_found(ms, 0);
    }
    assert(member(ms, "enrolled_ms"@) == Some(ms[1].1)) by {
        assert("device_id"@.len() != "enrolled_ms"@.len());
        member_is_found(ms, 1);
    }
}

/// What is not among the first members is looked for among the rest.
pub proof fn member_of_two(a: Seq<(Seq<char>, JsonView)>, b: Seq<(Seq<char>, JsonView)>, name: Seq<char>)
    ensures
        member(a + b, name) == (match member(a, name) {
            Some(v) => Some(v),
            None => member(b, name),
        }),
    decreases a.len(),
{
    if a.len() == 0 {
        assert(a + b =~= b);
    } else {
        member_of_two(a.drop_first(), b, name);
        assert((a + b).drop_first() =~= a.drop_first() + b);
        assert((a + b)[0] == a[0]);
    }
}

/// What a path names is told by the word for it; a task or an artefact keeps every part that it
/// has on the wire, and an arch every part of its manifest, its state and why it cannot be
/// called.
pub proof fn entry_is_told_in_full(e: EntryView, chain: Seq<JsonView>, len: nat, name: Seq<char>)
    requires
        name != "type"@,
    ensures
        ({
            let told = entry_json(e, chain, len);
            &&& text_field(told, "type"@) == Some("dir"@) <==> e is Dir
            &&& text_field(told, "type"@) == Some("arches"@) <==> e is Arches
            &&& text_field(told, "type"@) == Some("arch"@) <==> e is Arch
            &&& text_field(told, "type"@) == Some("task"@) <==> e is Task
            &&& text_field(told, "type"@) == Some("artefact"@) <==> e is Artefact
            &&& text_field(told, "type"@) == Some("device"@) <==> e is Device
            &&& text_field(told, "type"@) == Some("ledger_tail"@) <==> e is LedgerTail
            &&& e is Dir ==> field(told, "entries"@) is Some && lists_texts(
                field(told, "entries"@)->0,
                e->Dir_0,
            )
            &&& e is Device ==> text_field(told, "id"@) == Some(e->Device_0)
            &&& e is Task ==> field(told, name) == field(task_json(e->Task_0), name)
            &&& e is Artefact ==> field(told, name) == field(envelope_json(e->Artefact_0), name)
            &&& e is Arch && field(manifest_json(e->manifest), name) is Some ==> field(told, name)
                == field(manifest_json(e->manifest), name)
            &&& e is LedgerTail ==> field(told, "events"@) == Some(
                event_list(e->LedgerTail_0, chain, len - e->LedgerTail_0.len()),
            )
            &&& e is Arches ==> {
                &&& field(told, "arches"@) is Some
                &&& field(told, "arches"@)->0 is Array
                &&& field(told, "arches"@)->0->Array_0.len() == e->Arches_0.len()
                &&& forall|i: int|
                    0 <= i < e->Arches_0.len() ==> #[trigger] field(told, "arches"@)->0->Array_0[i]
                        == arch_row_json(e->Arches_0[i])
            }
        }),
{
    reveal_strlit("type");
    reveal_strlit("entries");
    reveal_strlit("arches");
    reveal_strlit("id");
    reveal_strlit("events");
    reveal_strlit("dir");
    reveal_strlit("arch");
    reveal_strlit("task");
    reveal_strlit("artefact");
    reveal_strlit("device");
    reveal_strlit("ledger_tail");
    assert("type"@.len() == 4 && "entries"@.len() == 7 && "arches"@.len() == 6);
    assert("id"@.len() == 2 && "events"@.len() == 6 && "dir"@.len() == 3 && "arch"@.len() == 4);
    assert("task"@.len() == 4 && "artefact"@.len() == 8 && "device"@.len() == 6);
    assert("ledger_tail"@.len() == 11);
    assert("arch"@[0] != "task"@[0]);
    assert("arches"@[0] != "device"@[0]);
    let ms = entry_json(e, chain, len)->Object_0;
    assert(ms[0].0 == "type"@);
    member_is_found(ms, 0);
    match e {
        EntryView::Dir(_) => {
            member_is_found(ms, 1);
        },
        EntryView::Arches(_) => {
            member_is_found(ms, 1);
        },
        EntryView::Device(_) => {
            member_is_found(ms, 1);
        },
        EntryView::LedgerTail(_) => {
            member_is_found(ms, 1);
        },
        EntryView::Task(t) => {
            assert(ms.drop_first() =~= task_json(t)->Object_0);
        },
        EntryView::Artefact(b) => {
            assert(ms.drop_first() =~= envelope_json(b)->Object_0);
        },
        EntryView::Arch { manifest, state, reason } => {
            let m = manifest_json(manifest)->Object_0;
            let rest = seq![("state"@, JsonView::Text(state))] + crate::screens::reason_member(reason);
            assert(ms.drop_first() =~= m + rest);
            member_of_two(m, rest, name);
        },
    }
}

/// What is shown of an arch at its path says how it stands and, where it cannot be called, why.
pub proof fn arch_entry_says_how_it_stands(
    m: crate::manifest::ArchManifestView,
    state: Seq<char>,
    reason: Option<Seq<char>>,
    chain: Seq<JsonView>,
    len: nat,
)
    ensures
        ({
            let told = entry_json(EntryView::Arch { manifest: m, state, reason }, chain, len);
            &&& text_field(told, "state"@) == Some(state)
            &&& text_field(told, "reason"@) == reason
        }),
{
    let ms = entry_json(EntryView::Arch { manifest: m, state, reason }, chain, len)->Object_0;
    let first = seq![("type"@, JsonView::Text("arch"@))] + manifest_json(m)->Object_0;
    let rest = seq![("state"@, JsonView::Text(state))] + crate::screens::reason_member(reason);
    assert(ms =~= first + rest);
    arch_words_are_apart();
    assert forall|i: int| 0 <= i < first.len() implies (#[trigger] first[i]).0 != "state"@ && first[i].0
        != "reason"@ by {}
    nothing_is_found(first, "state"@);
    nothing_is_found(first, "reason"@);
    member_of_two(first, rest, "state"@);
    member_of_two(first, rest, "reason"@);
    assert(rest[0].0 == "state"@);
    member_is_found(rest, 0);
    if reason is Some {
        member_is_found(rest, 1);
    } else {
        nothing_is_found(rest, "reason"@);
    }
}

proof fn arch_words_are_apart()
    ensures
        "type"@ != "state"@,
        "type"@ != "reason"@,
        "name"@ != "state"@,
        "name"@ != "reason"@,
        "capabilities"@ != "state"@,
        "capabilities"@ != "reason"@,
        "locality"@ != "state"@,
        "locality"@ != "reason"@,
        "jurisdiction"@ != "state"@,
        "jurisdiction"@ != "reason"@,
        "retention_days"@ != "state"@,
        "retention_days"@ != "reason"@,
        "cost_per_1k_tokens_eur"@ != "state"@,
        "cost_per_1k_tokens_eur"@ != "reason"@,
        "latency_ms_p50"@ != "state"@,
        "latency_ms_p50"@ != "reason"@,
        "context_ceiling"@ != "state"@,
        "context_ceiling"@ != "reason"@,
        "determinism"@ != "state"@,
        "determinism"@ != "reason"@,
        "identity"@ != "state"@,
        "identity"@ != "reason"@,
        "clearance"@ != "state"@,
        "clearance"@ != "reason"@,
        "governed"@ != "state"@,
        "governed"@ != "reason"@,
        "state"@ != "reason"@,
{
    reveal_strlit("type");
    reveal_strlit("name");
    reveal_strlit("capabilities");
    reveal_strlit("locality");
    reveal_strlit("jurisdiction");
    reveal_strlit("retention_days");
    reveal_strlit("cost_per_1k_tokens_eur");
    reveal_strlit("latency_ms_p50");
    reveal_strlit("context_ceiling");
    reveal_strlit("determinism");
    reveal_strlit("identity");
    reveal_strlit("clearance");
    reveal_strlit("governed");
    reveal_strlit("state");
    reveal_strlit("reason");
    assert("type"@.len() != "state"@.len());
    assert("type"@.len() != "reason"@.len());
    assert("name"@.len() != "state"@.len());
    assert("name"@.len() != "reason"@.len());
    assert("capabilities"@.len() != "state"@.len());
    assert("capabilities"@.len() != "reason"@.len());
    assert("locality"@.len() != "state"@.len());
    assert("locality"@.len() != "reason"@.len());
    assert("jurisdiction"@.len() != "state"@.len());
    assert("jurisdiction"@.len() != "reason"@.len());
    assert("retention_days"@.len() != "state"@.len());
    assert("retention_days"@.len() != "reason"@.len());
    assert("cost_per_1k_tokens_eur"@.len() != "state"@.len());
    assert("cost_per_1k_tokens_eur"@.len() != "reason"@.len());
    assert("latency_ms_p50"@.len() != "state"@.len());
    assert("latency_ms_p50"@.len() != "reason"@.len());
    assert("context_ceiling"@.len() != "state"@.len());
    assert("context_ceiling"@.len() != "reason"@.len());
    assert("determinism"@.len() != "state"@.len());
    assert("determinism"@.len() != "reason"@.len());
    assert("identity"@.len() != "state"@.len());
    assert("identity"@.len() != "reason"@.len());
    assert("clearance"@.len() != "state"@.len());
    assert("clearance"@.len() != "reason"@.len());
    assert("governed"@.len() != "state"@.len());
    assert("governed"@.len() != "reason"@.len());
    assert("state"@.len() != "reason"@.len());
}

/// One arch of a listing says its id, its name, how it stands and, where it cannot be called,
/// why.
pub proof fn arch_row_is_told_in_full(r: ArchRowView)
    ensures
        text_field(arch_row_json(r), "arch_id"@) == Some(r.arch_id),
        text_field(arch_row_json(r), "name"@) == Some(r.name),
        text_field(arch_row_json(r), "state"@) == Some(r.state),
        text_field(arch_row_json(r), "reason"@) == r.reason,
{
    let ms = arch_row_json(r)->Object_0;
    let first = seq![
        ("arch_id"@, JsonView::Text(r.arch_id)),
        ("name"@, JsonView::Text(r.name)),
        ("state"@, JsonView::Text(r.state)),
    ];
    reveal_strlit("arch_id");
    reveal_strlit("name");
    reveal_strlit("state");
    assert(member(ms, "arch_id"@) == Some(ms[0].1)) by {
        member_is_found(ms, 0);
    }
    assert(member(ms, "name"@) == Some(ms[1].1)) by {
        assert("arch_id"@.len() != "name"@.len());
        member_is_found(ms, 1);
    }
    assert(member(ms, "state"@) == Some(ms[2].1)) by {
        assert("arch_id"@.len() != "state"@.len());
        assert("name"@.len() != "state"@.len());
        member_is_found(ms, 2);
    }
    reveal_strlit("reason");
    assert("reason"@.len() == 6);
    if r.reason is Some {
        assert(ms[3].0 == "reason"@);
        member_is_found(ms, 3);
    } else {
        assert(ms =~= first);
        nothing_is_found(ms, "reason"@);
    }
}

/// Whether a text is one part of a path: it is not empty and has no separator.
pub open spec fn is_part(s: Seq<char>) -> bool {
    s.len() > 0 && forall|i: int| 0 <= i < s.len() ==> #[trigger] s[i] != '/'
}

/// A path of two parts has these parts.
pub proof fn path_has_its_parts(dir: Seq<char>, name: Seq<char>)
    requires
        is_part(dir),
        is_part(name),
    ensures
        path_parts("/"@ + dir) == seq![dir],
        path_parts("/"@ + dir + "/"@ + name) == seq![dir, name],
        path_parts("/"@) == Seq::<Seq<char>>::empty(),
{
    reveal_strlit("/");
    let none = Seq::<char>::empty();
    let root = "/"@;
    assert(root.drop_last() =~= none);
    assert(root.last() == '/');
    reveal_with_fuel(pieces, 2);
    assert(pieces(root, '/') =~= seq![none, none]);
    last_piece_grows(root, dir);
    assert(pieces(root + dir, '/') =~= seq![none, dir]);
    let deep = root + dir + "/"@;
    assert(deep.drop_last() =~= root + dir);
    assert(deep.last() == '/');
    assert(pieces(deep, '/') =~= seq![none, dir, none]);
    last_piece_grows(deep, name);
    assert(pieces(deep + name, '/') =~= seq![none, dir, name]);
    reveal_with_fuel(nonempty, 4);
    assert(seq![none, none].drop_last() =~= seq![none]);
    assert(seq![none].drop_last() =~= Seq::<Seq<char>>::empty());
    assert(seq![none, dir].drop_last() =~= seq![none]);
    assert(seq![none, dir, name].drop_last() =~= seq![none, dir]);
    assert(Seq::<Seq<char>>::empty().push(dir) =~= seq![dir]);
    assert(seq![dir].push(name) =~= seq![dir, name]);
}

/// A path of two parts names the arch, the task, the artefact or the device of that name, where
/// there is one that the caller may see, and otherwise nothing.
pub proof fn path_names_what_is_there<A: ArchAdapter>(
    k: KernelView<A>,
    ctx: CtxView,
    dir: Seq<char>,
    name: Seq<char>,
)
    requires
        is_part(dir),
        is_part(name),
    ensures
        ({
            let path = "/"@ + dir + "/"@ + name;
            let found = entry_at(k, ctx, path);
            let nothing = Err::<EntryView, KernelErrorView>(KernelErrorView::NotFound(path));
            &&& dir == "tasks"@ && seen(k.store, ctx, name) is Some ==> found == Ok::<
                EntryView,
                KernelErrorView,
            >(EntryView::Task(k.store.tasks[name]))
            &&& dir == "tasks"@ && seen(k.store, ctx, name) is None ==> found == nothing
            &&& dir == "devices"@ && k.store.devices.contains_key(name) ==> found == Ok::<
                EntryView,
                KernelErrorView,
            >(EntryView::Device(name))
            &&& dir == "devices"@ && !k.store.devices.contains_key(name) ==> found == nothing
            &&& dir == "arches"@ && state_of(k, name) is None ==> found == nothing
            &&& dir == "arches"@ && state_of(k, name) is Some ==> {
                &&& found is Ok
                &&& found->Ok_0 is Arch
                &&& found->Ok_0->manifest == entry_of(k, name).manifest
                &&& found->Ok_0->state == crate::arches::state_name(entry_of(k, name).state)
                &&& found->Ok_0->reason == crate::arches::state_reason(entry_of(k, name).state)
            }
            &&& dir != "tasks"@ && dir != "devices"@ && dir != "arches"@ && dir != "artefacts"@
                ==> found == nothing
        }),
{
    path_has_its_parts(dir, name);
    reveal_strlit("arches");
    reveal_strlit("tasks");
    reveal_strlit("artefacts");
    reveal_strlit("devices");
    assert("arches"@.len() != "tasks"@.len());
    assert("arches"@.len() != "artefacts"@.len());
    assert("arches"@.len() != "devices"@.len());
    assert("tasks"@.len() != "artefacts"@.len());
    assert("tasks"@.len() != "devices"@.len());
    assert("artefacts"@.len() != "devices"@.len());
}

/// An artefact is found under its address, written with what it is a hash of or without, and is
/// shown by its address, its label and its size, never by its bytes.
pub proof fn artefact_is_found_by_its_address<A: ArchAdapter>(
    k: KernelView<A>,
    ctx: CtxView,
    digits: Seq<char>,
)
    requires
        is_part(digits),
        !begins(digits, "sha256:"@),
    ensures
        ({
            let hash = "sha256:"@ + digits;
            let short = entry_at(k, ctx, "/artefacts/"@ + digits);
            let long = entry_at(k, ctx, "/artefacts/"@ + hash);
            let b = k.store.blobs[hash];
            &&& short is Ok <==> k.store.blobs.contains_key(hash)
            &&& long is Ok <==> k.store.blobs.contains_key(hash)
            &&& short is Ok ==> {
                &&& short->Ok_0 is Artefact
                &&& short->Ok_0->Artefact_0.hash == hash
                &&& short->Ok_0->Artefact_0.label == b.label
                &&& short->Ok_0->Artefact_0.subject == b.subject
                &&& b.bytes.len() <= u64::MAX ==> short->Ok_0->Artefact_0.len == b.bytes.len()
                &&& long == short
            }
        }),
{
    let hash = "sha256:"@ + digits;
    reveal_strlit("sha256:");
    reveal_strlit("/artefacts/");
    reveal_strlit("/");
    reveal_strlit("arches");
    reveal_strlit("tasks");
    reveal_strlit("artefacts");
    reveal_strlit("devices");
    assert("arches"@.len() != "artefacts"@.len());
    assert("tasks"@.len() != "artefacts"@.len());
    assert forall|i: int| 0 <= i < hash.len() implies #[trigger] hash[i] != '/' by {
        if i >= 7 {
            assert(hash[i] == digits[i - 7]);
        }
    }
    assert("/artefacts/"@ =~= "/"@ + "artefacts"@ + "/"@);
    path_has_its_parts("artefacts"@, digits);
    path_has_its_parts("artefacts"@, hash);
    reveal_with_fuel(crate::adapter::without_prefixes, 2);
    assert(hash.subrange(0, 7) =~= "sha256:"@);
    assert(hash.skip(7) =~= digits);
    assert(full_address(digits) == hash);
    assert(full_address(hash) == hash);
}

/// A path of one part lists every arch, every task that the caller may see, every device, or the
/// end of the record; the root lists where they are.
pub proof fn listing_has_everything<A: ArchAdapter>(
    k: KernelView<A>,
    ctx: CtxView,
    arches: Seq<Seq<char>>,
    tasks: Seq<Seq<char>>,
    devices: Seq<Seq<char>>,
)
    requires
        is_in_order(arches, |id: Seq<char>| state_of(k, id) is Some),
        is_in_order(tasks, |id: Seq<char>| seen(k.store, ctx, id) is Some),
        is_in_order(devices, |id: Seq<char>| k.store.devices.contains_key(id)),
        forall|id: Seq<char>| #[trigger]
            k.store.tasks.contains_key(id) ==> k.store.tasks[id].id == id,
    ensures
        entry_at(k, ctx, "/tasks"@) == Ok::<EntryView, KernelErrorView>(EntryView::Dir(tasks)),
        entry_at(k, ctx, "/devices"@) == Ok::<EntryView, KernelErrorView>(EntryView::Dir(devices)),
        entry_at(k, ctx, "/ledger"@) == Ok::<EntryView, KernelErrorView>(
            EntryView::LedgerTail(last_events(k.store.ledger, 50)),
        ),
        ({
            let found = entry_at(k, ctx, "/arches"@);
            &&& found is Ok
            &&& found->Ok_0 is Arches
            &&& found->Ok_0->Arches_0.len() == arches.len()
            &&& forall|i: int|
                0 <= i < arches.len() ==> {
                    let row = #[trigger] found->Ok_0->Arches_0[i];
                    let e = entry_of(k, arches[i]);
                    &&& row.arch_id == arches[i]
                    &&& row.name == e.manifest.name
                    &&& row.state == crate::arches::state_name(e.state)
                    &&& row.reason == crate::arches::state_reason(e.state)
                }
        }),
        ({
            let found = entry_at(k, ctx, "/"@);
            &&& found is Ok
            &&& found->Ok_0 is Dir
            &&& forall|name: Seq<char>| #[trigger]
                found->Ok_0->Dir_0.contains(name) <==> name == "arches"@ || name == "tasks"@ || name
                    == "artefacts"@ || name == "devices"@ || name == "ledger"@
        }),
{
    reveal_strlit("/");
    reveal_strlit("arches");
    reveal_strlit("tasks");
    reveal_strlit("devices");
    reveal_strlit("ledger");
    reveal_strlit("/arches");
    reveal_strlit("/tasks");
    reveal_strlit("/devices");
    reveal_strlit("/ledger");
    assert("arches"@.len() != "tasks"@.len());
    assert("arches"@.len() != "devices"@.len());
    assert("tasks"@.len() != "devices"@.len());
    assert("arches"@[0] != "ledger"@[0]);
    assert("tasks"@.len() != "ledger"@.len());
    assert("devices"@.len() != "ledger"@.len());
    assert("/arches"@ =~= "/"@ + "arches"@);
    assert("/tasks"@ =~= "/"@ + "tasks"@);
    assert("/devices"@ =~= "/"@ + "devices"@);
    assert("/ledger"@ =~= "/"@ + "ledger"@);
    path_has_its_parts("arches"@, "tasks"@);
    path_has_its_parts("tasks"@, "tasks"@);
    path_has_its_parts("devices"@, "tasks"@);
    path_has_its_parts("ledger"@, "tasks"@);
    let p = |id: Seq<char>| seen(k.store, ctx, id) is Some;
    one_order(arches, |id: Seq<char>| state_of(k, id) is Some);
    one_order(tasks, p);
    one_order(devices, |id: Seq<char>| k.store.devices.contains_key(id));
    assert(crate::tasks::task_ids(task_listing(k.store, ctx)) =~= tasks) by {
        assert forall|i: int| 0 <= i < tasks.len() implies #[trigger] crate::tasks::task_ids(
            task_listing(k.store, ctx),
        )[i] == tasks[i] by {
            assert(tasks.contains(tasks[i]));
            assert(p(tasks[i]));
            assert(k.store.tasks.contains_key(tasks[i]));
        }
    }
    let root = crate::ns::root_names();
    assert(root[0] == "arches"@ && root[1] == "tasks"@ && root[2] == "artefacts"@ && root[3]
        == "devices"@ && root[4] == "ledger"@);
    last_events_are_the_last(k.store.ledger, 50);
}

} // verus!
