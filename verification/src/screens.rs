//! What a node shows of itself, as the wire has it: listings, the namespace, the screen
//! and what it is running.
use crate::adapter::ArchAdapter;
use crate::arches::{entry_ids, state_name, state_reason, ArchEntry, ArchEntryView};
use crate::boot::{arch_ids, enrolled_ids, record_holds, scopes_stopped};
use crate::devices::{lists_passkeys, passkey_ids, passkey_of, PasskeyRow, PasskeyRowView};
use crate::json::{
    optional_text, optional_text_to_json, put_members, text, texts_json, texts_to_json, Fields,
    Items, Json, JsonView,
};
use crate::kernel::{KernelView, RealKernel};
use crate::listing::{arch_listing, arches_are_listed_one_way, in_order, one_order};
use crate::model::{all, opt, Duplicate};
use crate::ns::{ArchRow, ArchRowView, Entry, EntryView};
use crate::scheduler::export_root_of;
use crate::stops::is_stopped;
use crate::store::{ArchStats, ArchStatsView, LedgerEvent, LedgerEventView, StoreView};
use crate::table::{ascending, Table};
use crate::task::{status_name, status_text, TaskStatus};
use crate::tasks::{DecisionsAfterStep, DecisionsAfterStepView};
use crate::text::before;
use crate::top::{StatusRow, TopArch, TopArchView, TopScreen, TopView};
use crate::wire::{
    envelope_json, envelope_to_json, event_list, event_list_to_json, manifest_json,
    manifest_to_json, optional_real, optional_real_to_json, task_json, task_to_json,
};
use vstd::prelude::*;

verus! {

/// The reason, where there is one to give.
pub open spec fn reason_member(reason: Option<Seq<char>>) -> Seq<(Seq<char>, JsonView)> {
    match reason {
        Some(s) => seq![("reason"@, JsonView::Text(s))],
        None => Seq::empty(),
    }
}

/// One arch of a listing.
pub open spec fn arch_row_json(r: ArchRowView) -> JsonView {
    JsonView::Object(
        seq![
            ("arch_id"@, JsonView::Text(r.arch_id)),
            ("name"@, JsonView::Text(r.name)),
            ("state"@, JsonView::Text(r.state)),
        ] + reason_member(r.reason),
    )
}

fn arch_row_to_json(r: &ArchRow) -> (j: Json)
    ensures
        j@ == arch_row_json(r@),
{
    let mut f = Fields::new();
    f.put_text("arch_id", r.arch_id.as_str());
    f.put_text("name", r.name.as_str());
    f.put_text("state", r.state.as_str());
    if let Some(why) = &r.reason {
        f.put_text("reason", why.as_str());
    }
    assert(f@ =~= arch_row_json(r@)->Object_0);
    f.object()
}

/// The arches of a listing.
pub open spec fn arch_rows_json(rows: Seq<ArchRowView>) -> JsonView {
    JsonView::Array(rows.map_values(|r: ArchRowView| arch_row_json(r)))
}

fn arch_rows_to_json(rows: &Vec<ArchRow>) -> (j: Json)
    ensures
        j@ == arch_rows_json(all(rows@)),
{
    let mut items = Items::new();
    let mut i: usize = 0;
    while i < rows.len()
        invariant
            i <= rows@.len(),
            items@.len() == i,
            forall|k: int| 0 <= k < i ==> #[trigger] items@[k] == arch_row_json(rows@[k]@),
        decreases rows@.len() - i,
    {
        items.add(arch_row_to_json(&rows[i]));
        i += 1;
    }
    assert(items@ =~= all(rows@).map_values(|r: ArchRowView| arch_row_json(r)));
    items.array()
}

/// An object with its type before its members.
pub open spec fn tagged(tag: Seq<char>, v: JsonView) -> Seq<(Seq<char>, JsonView)> {
    seq![("type"@, JsonView::Text(tag))] + v->Object_0
}

/// What a path names, on a record of this length with this chain.
pub open spec fn entry_json(e: EntryView, chain: Seq<JsonView>, len: nat) -> JsonView {
    JsonView::Object(
        match e {
            EntryView::Dir(names) => seq![
                ("type"@, JsonView::Text("dir"@)),
                ("entries"@, texts_json(names)),
            ],
            EntryView::Arches(rows) => seq![
                ("type"@, JsonView::Text("arches"@)),
                ("arches"@, arch_rows_json(rows)),
            ],
            EntryView::Arch { manifest, state, reason } => tagged(
                "arch"@,
                manifest_json(manifest),
            ).push(("state"@, JsonView::Text(state))) + reason_member(reason),
            EntryView::Task(t) => tagged("task"@, task_json(t)),
            EntryView::Artefact(b) => tagged("artefact"@, envelope_json(b)),
            EntryView::Device(id) => seq![
                ("type"@, JsonView::Text("device"@)),
                ("id"@, JsonView::Text(id)),
            ],
            EntryView::LedgerTail(events) => seq![
                ("type"@, JsonView::Text("ledger_tail"@)),
                ("events"@, event_list(events, chain, len - events.len())),
            ],
        },
    )
}

/// What a path names, on a record of this length with this chain.
pub fn entry_to_json(e: &Entry, chain: &Vec<Json>, len: usize) -> (j: Json)
    requires
        e@ is LedgerTail ==> e@->LedgerTail_0.len() <= len,
    ensures
        j@ == entry_json(e@, all(chain@), len as nat),
{
    let mut f = Fields::new();
    match e {
        Entry::Dir(names) => {
            f.put_text("type", "dir");
            f.put("entries", texts_to_json(names));
        },
        Entry::Arches(rows) => {
            f.put_text("type", "arches");
            f.put("arches", arch_rows_to_json(rows));
        },
        Entry::Arch { manifest, state, reason } => {
            f.put_text("type", "arch");
            let m = manifest_to_json(manifest);
            put_members(&mut f, &m);
            f.put_text("state", state.as_str());
            if let Some(why) = reason {
                f.put_text("reason", why.as_str());
            }
        },
        Entry::Task(t) => {
            f.put_text("type", "task");
            let v = task_to_json(t);
            put_members(&mut f, &v);
        },
        Entry::Artefact(b) => {
            f.put_text("type", "artefact");
            let v = envelope_to_json(b);
            put_members(&mut f, &v);
        },
        Entry::Device(id) => {
            f.put_text("type", "device");
            f.put_text("id", id.as_str());
        },
        Entry::LedgerTail(events) => {
            f.put_text("type", "ledger_tail");
            assert(all(events@).len() == events@.len());
            f.put("events", event_list_to_json(events, chain, len - events.len()));
        },
    }
    assert(f@ =~= entry_json(e@, all(chain@), len as nat)->Object_0);
    f.object()
}

/// The state of an arch.
pub open spec fn arch_state_json(e: ArchEntryView) -> JsonView {
    JsonView::Object(
        seq![
            ("arch_id"@, JsonView::Text(e.arch_id)),
            ("state"@, JsonView::Text(state_name(e.state))),
            ("reason"@, optional_text(state_reason(e.state))),
        ],
    )
}

/// An arch with its manifest and its state.
pub open spec fn arch_entry_json(e: ArchEntryView) -> JsonView {
    JsonView::Object(
        seq![
            ("arch_id"@, JsonView::Text(e.arch_id)),
            ("manifest"@, manifest_json(e.manifest)),
            ("state"@, JsonView::Text(state_name(e.state))),
            ("reason"@, optional_text(state_reason(e.state))),
        ],
    )
}

fn reason_to_json(e: &ArchEntry) -> (j: Json)
    ensures
        j@ == optional_text(state_reason(e@.state)),
{
    match e.state.reason() {
        Some(why) => text(why),
        None => Json::Null,
    }
}

fn arch_state_to_json(e: &ArchEntry) -> (j: Json)
    ensures
        j@ == arch_state_json(e@),
{
    let mut f = Fields::new();
    f.put_text("arch_id", e.arch_id.as_str());
    f.put_text("state", e.state.name());
    f.put("reason", reason_to_json(e));
    assert(f@ =~= arch_state_json(e@)->Object_0);
    f.object()
}

fn arch_entry_to_json(e: &ArchEntry) -> (j: Json)
    ensures
        j@ == arch_entry_json(e@),
{
    let mut f = Fields::new();
    f.put_text("arch_id", e.arch_id.as_str());
    f.put("manifest", manifest_to_json(&e.manifest));
    f.put_text("state", e.state.name());
    f.put("reason", reason_to_json(e));
    assert(f@ =~= arch_entry_json(e@)->Object_0);
    f.object()
}

/// The states of every mounted arch.
pub open spec fn arch_states_json<A: ArchAdapter>(k: KernelView<A>) -> JsonView {
    JsonView::Array(arch_listing(k).map_values(|e: ArchEntryView| arch_state_json(e)))
}

/// Every mounted arch.
pub open spec fn arch_list_json<A: ArchAdapter>(k: KernelView<A>) -> JsonView {
    JsonView::Array(arch_listing(k).map_values(|e: ArchEntryView| arch_entry_json(e)))
}

/// A passkey: when it was enrolled, and never its credential.
pub open spec fn passkey_json(p: PasskeyRowView) -> JsonView {
    JsonView::Object(
        seq![
            ("device_id"@, JsonView::Text(p.device_id)),
            ("enrolled_ms"@, JsonView::Unsigned(p.enrolled_ms as nat)),
        ],
    )
}

/// Every passkey, in the order of ids.
pub open spec fn passkey_listing(s: StoreView) -> Seq<PasskeyRowView> {
    in_order(|id: Seq<char>| passkey_of(s, id) is Some).map_values(
        |id: Seq<char>| passkey_of(s, id)->0,
    )
}

/// Every passkey, in the order of ids.
pub open spec fn passkey_list_json(s: StoreView) -> JsonView {
    JsonView::Array(passkey_listing(s).map_values(|p: PasskeyRowView| passkey_json(p)))
}

proof fn passkeys_are_listed_one_way(s: StoreView, ps: Seq<PasskeyRowView>)
    requires
        lists_passkeys(s, ps),
    ensures
        ps == passkey_listing(s),
{
    let p = |id: Seq<char>| passkey_of(s, id) is Some;
    let ids = passkey_ids(ps);
    assert forall|x: Seq<char>| #[trigger] ids.contains(x) <==> p(x) by {
        if ids.contains(x) {
            let i = ids.index_of(x);
            assert(ps[i].device_id == x);
        }
    }
    one_order(ids, p);
    assert forall|i: int| 0 <= i < ps.len() implies ps[i] == passkey_listing(s)[i] by {
        assert(ids[i] == ps[i].device_id);
    }
    assert(ps =~= passkey_listing(s));
}

fn passkey_to_json(p: &PasskeyRow) -> (j: Json)
    ensures
        j@ == passkey_json(p@),
{
    let mut f = Fields::new();
    f.put_text("device_id", p.device_id.as_str());
    f.put("enrolled_ms", Json::Unsigned(p.enrolled_ms));
    assert(f@ =~= passkey_json(p@)->Object_0);
    f.object()
}

/// What a step left among the decisions.
pub open spec fn decisions_json(d: DecisionsAfterStepView) -> JsonView {
    JsonView::Object(
        seq![
            ("after_step"@, JsonView::Unsigned(d.after_step)),
            ("count"@, JsonView::Unsigned(d.count)),
            ("last_len_bytes"@, JsonView::Unsigned(d.last_len_bytes)),
            ("last_hash"@, JsonView::Text(d.last_hash)),
        ],
    )
}

/// What each step left among the decisions.
pub open spec fn decisions_list(ds: Seq<DecisionsAfterStepView>) -> JsonView {
    JsonView::Array(ds.map_values(|d: DecisionsAfterStepView| decisions_json(d)))
}

/// What each step left among the decisions.
pub fn decisions_to_json(ds: &Vec<DecisionsAfterStep>) -> (j: Json)
    ensures
        j@ == decisions_list(all(ds@)),
{
    let mut items = Items::new();
    let mut i: usize = 0;
    while i < ds.len()
        invariant
            i <= ds@.len(),
            items@.len() == i,
            forall|k: int| 0 <= k < i ==> #[trigger] items@[k] == decisions_json(ds@[k]@),
        decreases ds@.len() - i,
    {
        let mut f = Fields::new();
        f.put("after_step", Json::Unsigned(ds[i].after_step as u64));
        f.put("count", Json::Unsigned(ds[i].count as u64));
        f.put("last_len_bytes", Json::Unsigned(ds[i].last_len_bytes as u64));
        f.put_text("last_hash", ds[i].last_hash.as_str());
        assert(f@ =~= decisions_json(ds@[i as int]@)->Object_0);
        items.add(f.object());
        i += 1;
    }
    assert(items@ =~= all(ds@).map_values(|d: DecisionsAfterStepView| decisions_json(d)));
    items.array()
}

/// What the prices of the calls of an arch come to, of those that were added up.
pub open spec fn total_of(totals: Map<Seq<char>, Seq<char>>, id: Seq<char>) -> Seq<char> {
    if totals.contains_key(id) {
        totals[id]
    } else {
        "0.0"@
    }
}

fn read_total(totals: &Table<String>, id: &str) -> (r: String)
    requires
        totals.wf(),
    ensures
        r@ == total_of(totals@, id@),
{
    match totals.get(id) {
        Some(t) => t.dup(),
        None => "0.0".to_owned(),
    }
}

/// What the calls of an arch come to, of which the prices come to `total`.
pub open spec fn stats_json(s: ArchStatsView, total: Seq<char>) -> JsonView {
    JsonView::Object(
        seq![
            ("calls"@, JsonView::Unsigned(s.calls as nat)),
            ("tokens_in"@, JsonView::Unsigned(s.tokens_in as nat)),
            ("tokens_in_measured"@, JsonView::Unsigned(s.tokens_in_measured as nat)),
            ("cost_list_usd"@, JsonView::Real(total)),
            ("projected"@, JsonView::Unsigned(s.projected as nat)),
        ],
    )
}

fn stats_to_json(s: &ArchStats, total: String) -> (j: Json)
    ensures
        j@ == stats_json(s@, total@),
{
    let mut f = Fields::new();
    f.put("calls", Json::Unsigned(s.calls));
    f.put("tokens_in", Json::Unsigned(s.tokens_in));
    f.put("tokens_in_measured", Json::Unsigned(s.tokens_in_measured));
    f.put("cost_list_usd", Json::Real(total));
    f.put("projected", Json::Unsigned(s.projected));
    assert(f@ =~= stats_json(s@, total@)->Object_0);
    f.object()
}

/// What the screen shows of the arches, one column each.
#[derive(Clone, Copy, Debug, PartialEq, Eq, Structural)]
pub enum Column {
    Stats,
    Governed,
    State,
    Unavailable,
    Price,
    Locality,
    Jurisdiction,
}

/// What a column has for an arch: its counters for every arch, and the rest for one
/// that is mounted; a reason only where it is unavailable.
pub open spec fn cell(c: Column, a: TopArchView, total: Seq<char>) -> Option<JsonView> {
    match (c, a.mounted) {
        (Column::Stats, _) => Some(stats_json(a.stats, total)),
        (_, None) => None,
        (Column::Governed, Some(m)) => Some(JsonView::Bool(m.governed)),
        (Column::State, Some(m)) => Some(JsonView::Text(m.state)),
        (Column::Unavailable, Some(m)) => match m.unavailable {
            Some(why) => Some(JsonView::Text(why)),
            None => None,
        },
        (Column::Price, Some(m)) => Some(optional_real(m.price_eur_per_1k)),
        (Column::Locality, Some(m)) => Some(JsonView::Text(m.locality)),
        (Column::Jurisdiction, Some(m)) => Some(JsonView::Text(m.jurisdiction)),
    }
}

fn read_cell(c: Column, a: &TopArch, total: String) -> (r: Option<Json>)
    ensures
        opt(r) == cell(c, a@, total@),
{
    if let Column::Stats = c {
        return Some(stats_to_json(&a.stats, total));
    }
    match &a.mounted {
        None => None,
        Some(m) => match c {
            Column::Stats => None,
            Column::Governed => Some(Json::Bool(m.governed)),
            Column::State => Some(text(m.state.as_str())),
            Column::Unavailable => match &m.unavailable {
                Some(why) => Some(text(why.as_str())),
                None => None,
            },
            Column::Price => Some(optional_real_to_json(&m.price_eur_per_1k)),
            Column::Locality => Some(text(m.locality.as_str())),
            Column::Jurisdiction => Some(text(m.jurisdiction.as_str())),
        },
    }
}

/// One column of the screen, by the ids of the arches.
pub open spec fn column_json(
    m: Map<Seq<char>, TopArchView>,
    c: Column,
    totals: Map<Seq<char>, Seq<char>>,
) -> JsonView {
    JsonView::Object(
        in_order(|id: Seq<char>| m.contains_key(id) && cell(c, m[id], total_of(totals, id)) is Some).map_values(
            |id: Seq<char>| (id, cell(c, m[id], total_of(totals, id))->0),
        ),
    )
}

fn column_to_json(t: &Table<TopArch>, c: Column, totals: &Table<String>) -> (j: Json)
    requires
        t.wf(),
        totals.wf(),
    ensures
        j@ == column_json(t@, c, totals@),
{
    let ghost m = t@;
    let ghost sums = totals@;
    let ghost p = |id: Seq<char>| m.contains_key(id) && cell(c, m[id], total_of(sums, id)) is Some;
    let mut f = Fields::new();
    let mut i: usize = 0;
    let ghost mut ids = Seq::<Seq<char>>::empty();
    while i < t.len()
        invariant
            t.wf(),
            totals.wf(),
            m == t@,
            sums == totals@,
            p == (|id: Seq<char>| m.contains_key(id) && cell(c, m[id], total_of(sums, id)) is Some),
            i <= t.keys().len(),
            f@.len() == ids.len(),
            forall|j: int|
                0 <= j < ids.len() ==> #[trigger] f@[j] == (ids[j], cell(c, m[ids[j]], total_of(sums, ids[j]))->0),
            forall|j: int|
                0 <= j < ids.len() ==> p(#[trigger] ids[j]) && exists|a: int|
                    0 <= a < i && #[trigger] t.keys()[a] == ids[j],
            ascending(ids),
            forall|a: int|
                0 <= a < i && p(#[trigger] t.keys()[a]) ==> ids.contains(t.keys()[a]),
        decreases t.keys().len() - i,
    {
        proof {
            t.keys_are_domain();
        }
        let ghost id = t.keys()[i as int];
        assert(m.contains_key(id)) by {
            assert(t.keys().contains(id));
        }
        match read_cell(c, t.value_at(i), read_total(totals, t.key_at(i).as_str())) {
            Some(v) => {
                let ghost had = f@;
                f.put(t.key_at(i).as_str(), v);
                proof {
                    let grown = ids.push(id);
                    assert forall|j: int| 0 <= j < grown.len() implies #[trigger] f@[j] == (
                        grown[j],
                        cell(c, m[grown[j]], total_of(sums, grown[j]))->0,
                    ) by {
                        if j < ids.len() {
                            assert(f@[j] == had[j]);
                            assert(grown[j] == ids[j]);
                        }
                    }
                    assert forall|j: int| 0 <= j < grown.len() implies p(#[trigger] grown[j])
                        && exists|a: int| 0 <= a < i + 1 && #[trigger] t.keys()[a] == grown[j] by {
                        if j < ids.len() {
                            assert(grown[j] == ids[j]);
                        } else {
                            assert(t.keys()[i as int] == grown[j]);
                        }
                    }
                    assert(ascending(grown)) by {
                        assert forall|x: int, y: int| 0 <= x < y < grown.len() implies before(
                            #[trigger] grown[x],
                            #[trigger] grown[y],
                        ) by {
                            if y < ids.len() {
                                assert(grown[x] == ids[x]);
                                assert(grown[y] == ids[y]);
                            } else {
                                assert(grown[x] == ids[x]);
                                let a = choose|a: int| 0 <= a < i && #[trigger] t.keys()[a] == ids[x];
                                assert(before(t.keys()[a], t.keys()[i as int]));
                            }
                        }
                    }
                    assert forall|a: int| 0 <= a < i + 1 && p(#[trigger] t.keys()[a]) implies grown.contains(
                        t.keys()[a],
                    ) by {
                        if a < i {
                            assert(ids.contains(t.keys()[a]));
                            let j = ids.index_of(t.keys()[a]);
                            assert(grown[j] == t.keys()[a]);
                        } else {
                            assert(grown[ids.len() as int] == t.keys()[a]);
                        }
                    }
                    ids = grown;
                }
            },
            None => {},
        }
        i += 1;
    }
    proof {
        t.keys_are_domain();
        assert forall|x: Seq<char>| #[trigger] ids.contains(x) <==> p(x) by {
            if ids.contains(x) {
                let j = ids.index_of(x);
                assert(p(ids[j]));
            }
            if p(x) {
                assert(t.keys().contains(x));
                let a = t.keys().index_of(x);
                assert(p(t.keys()[a]));
            }
        }
        one_order(ids, p);
    }
    assert(f@ =~= column_json(m, c, sums)->Object_0);
    f.object()
}

/// What every task is doing.
pub open spec fn statuses_json(m: Map<Seq<char>, TaskStatus>) -> JsonView {
    JsonView::Object(
        in_order(|id: Seq<char>| m.contains_key(id)).map_values(
            |id: Seq<char>| (id, JsonView::Text(status_text(m[id]))),
        ),
    )
}

fn statuses_to_json(t: &Table<StatusRow>) -> (j: Json)
    requires
        t.wf(),
    ensures
        j@ == statuses_json(t@),
{
    let ghost m = t@;
    let mut f = Fields::new();
    let mut i: usize = 0;
    while i < t.len()
        invariant
            t.wf(),
            m == t@,
            i <= t.keys().len(),
            f@.len() == i,
            forall|j: int|
                0 <= j < i ==> #[trigger] f@[j] == (
                    t.keys()[j],
                    JsonView::Text(status_text(m[t.keys()[j]])),
                ),
        decreases t.keys().len() - i,
    {
        f.put_text(t.key_at(i).as_str(), status_name(t.value_at(i).status));
        i += 1;
    }
    proof {
        t.keys_are_domain();
        one_order(t.keys(), |id: Seq<char>| m.contains_key(id));
    }
    assert(f@ =~= statuses_json(m)->Object_0);
    f.object()
}

/// Until when each business may act unattended.
pub open spec fn liveness_json(m: Map<Seq<char>, u64>) -> JsonView {
    JsonView::Object(
        in_order(|id: Seq<char>| m.contains_key(id)).map_values(
            |id: Seq<char>| (id, JsonView::Unsigned(m[id] as nat)),
        ),
    )
}

fn liveness_to_json(t: &Table<u64>) -> (j: Json)
    requires
        t.wf(),
    ensures
        j@ == liveness_json(t@),
{
    let ghost m = t@;
    let mut f = Fields::new();
    let mut i: usize = 0;
    while i < t.len()
        invariant
            t.wf(),
            m == t@,
            i <= t.keys().len(),
            f@.len() == i,
            forall|j: int|
                0 <= j < i ==> #[trigger] f@[j] == (
                    t.keys()[j],
                    JsonView::Unsigned(m[t.keys()[j]] as nat),
                ),
        decreases t.keys().len() - i,
    {
        f.put(t.key_at(i).as_str(), Json::Unsigned(*t.value_at(i)));
        i += 1;
    }
    proof {
        t.keys_are_domain();
        one_order(t.keys(), |id: Seq<char>| m.contains_key(id));
    }
    assert(f@ =~= liveness_json(m)->Object_0);
    f.object()
}

/// The screen, with what the prices of each arch come to.
pub open spec fn top_json(t: TopScreen, totals: Map<Seq<char>, Seq<char>>) -> JsonView {
    JsonView::Object(
        seq![
            ("arches"@, column_json(t.arches, Column::Stats, totals)),
            ("governed"@, column_json(t.arches, Column::Governed, totals)),
            ("states"@, column_json(t.arches, Column::State, totals)),
            ("unavailable"@, column_json(t.arches, Column::Unavailable, totals)),
            ("price_eur_per_1k"@, column_json(t.arches, Column::Price, totals)),
            ("locality"@, column_json(t.arches, Column::Locality, totals)),
            ("jurisdiction"@, column_json(t.arches, Column::Jurisdiction, totals)),
            ("tasks"@, statuses_json(t.tasks)),
            ("stopped_scopes"@, texts_json(t.stopped_scopes)),
            ("liveness"@, liveness_json(t.liveness)),
        ],
    )
}

/// The screen, with what the prices of each arch come to.
pub fn top_to_json(t: &TopView, totals: &Table<String>) -> (j: Json)
    requires
        t.wf(),
        totals.wf(),
    ensures
        j@ == top_json(t@, totals@),
{
    let mut f = Fields::new();
    f.put("arches", column_to_json(&t.arches, Column::Stats, totals));
    f.put("governed", column_to_json(&t.arches, Column::Governed, totals));
    f.put("states", column_to_json(&t.arches, Column::State, totals));
    f.put("unavailable", column_to_json(&t.arches, Column::Unavailable, totals));
    f.put("price_eur_per_1k", column_to_json(&t.arches, Column::Price, totals));
    f.put("locality", column_to_json(&t.arches, Column::Locality, totals));
    f.put("jurisdiction", column_to_json(&t.arches, Column::Jurisdiction, totals));
    f.put("tasks", statuses_to_json(&t.tasks));
    f.put("stopped_scopes", texts_to_json(&t.stopped_scopes));
    f.put("liveness", liveness_to_json(&t.liveness));
    assert(f@ =~= top_json(t@, totals@)->Object_0);
    f.object()
}

/// What a node runs, and how it came up.
pub open spec fn boot_info_json<A: ArchAdapter>(
    k: KernelView<A>,
    web: Option<Seq<char>>,
) -> JsonView {
    JsonView::Object(
        seq![
            ("node_id"@, JsonView::Text(k.node_id)),
            ("arches"@, JsonView::Unsigned(arch_ids(k).len())),
            ("arch_states"@, arch_states_json(k)),
            ("arches_starting"@, JsonView::Unsigned(k.starting.dom().len())),
            ("devices"@, JsonView::Unsigned(enrolled_ids(k).len())),
            ("ledger_len"@, JsonView::Unsigned(k.store.ledger.len())),
            ("ledger_ok"@, JsonView::Bool(record_holds(k))),
            ("forced"@, JsonView::Bool(k.forced_boot)),
            ("recovered_partial_line"@, JsonView::Bool(k.record.recovered_partial_line)),
            ("stopped_scopes"@, texts_json(scopes_stopped(k))),
            ("policies_version"@, optional_text(k.store.policies_version)),
            ("state_dir"@, JsonView::Text(k.store.state_dir)),
            ("export_root"@, JsonView::Text(export_root_of(k.store))),
            ("web"@, optional_text(web)),
        ],
    )
}

/// The last events of the record, as many as are asked for.
pub open spec fn last_events(events: Seq<LedgerEventView>, n: nat) -> Seq<LedgerEventView> {
    if events.len() <= n {
        events
    } else {
        events.skip(events.len() - n)
    }
}

/// The last events of the record, as many as are asked for, with what its chain has of
/// them.
pub open spec fn tail_json(
    events: Seq<LedgerEventView>,
    n: nat,
    chain: Seq<JsonView>,
) -> JsonView {
    let last = last_events(events, n);
    event_list(last, chain, events.len() - last.len())
}

impl<A: ArchAdapter> RealKernel<A> {
    /// The states of every mounted arch.
    pub fn arch_states_to_json(&self) -> (j: Json)
        requires
            self.wf(),
        ensures
            j@ == arch_states_json(self@),
    {
        let es = self.arch_states();
        let mut items = Items::new();
        let mut i: usize = 0;
        while i < es.len()
            invariant
                i <= es@.len(),
                items@.len() == i,
                forall|k: int| 0 <= k < i ==> #[trigger] items@[k] == arch_state_json(es@[k]@),
            decreases es@.len() - i,
        {
            items.add(arch_state_to_json(&es[i]));
            i += 1;
        }
        proof {
            arches_are_listed_one_way(self@, all(es@));
        }
        assert(items@ =~= arch_listing(self@).map_values(|e: ArchEntryView| arch_state_json(e)));
        items.array()
    }

    /// Every mounted arch.
    pub fn arch_list_to_json(&self) -> (j: Json)
        requires
            self.wf(),
        ensures
            j@ == arch_list_json(self@),
    {
        let es = self.arch_states();
        let mut items = Items::new();
        let mut i: usize = 0;
        while i < es.len()
            invariant
                i <= es@.len(),
                items@.len() == i,
                forall|k: int| 0 <= k < i ==> #[trigger] items@[k] == arch_entry_json(es@[k]@),
            decreases es@.len() - i,
        {
            items.add(arch_entry_to_json(&es[i]));
            i += 1;
        }
        proof {
            arches_are_listed_one_way(self@, all(es@));
        }
        assert(items@ =~= arch_listing(self@).map_values(|e: ArchEntryView| arch_entry_json(e)));
        items.array()
    }

    /// What a node runs, and how it came up.
    pub fn boot_info(&self, web: &Option<String>) -> (j: Json)
        requires
            self.wf(),
        ensures
            j@ == boot_info_json(self@, opt(*web)),
    {
        let es = self.arch_states();
        let devices = self.device_ids();
        let scopes = self.stopped_scopes();
        let version = self.policies_version();
        let root = self.export_root();
        proof {
            arches_are_listed_one_way(self@, all(es@));
            assert(entry_ids(all(es@)).len() == es@.len());
            one_order(
                all(devices@),
                |id: Seq<char>|
                    self@.devices.contains_key(id) || passkey_of(self@.store, id) is Some,
            );
            assert(all(devices@).len() == devices@.len());
            one_order(all(scopes@), |s: Seq<char>| is_stopped(self@, s));
        }
        let mut f = Fields::new();
        f.put_text("node_id", self.node_id.as_str());
        f.put("arches", Json::Unsigned(es.len() as u64));
        f.put("arch_states", self.arch_states_to_json());
        f.put("arches_starting", Json::Unsigned(self.arches_starting() as u64));
        f.put("devices", Json::Unsigned(devices.len() as u64));
        assert(all(self.store.ledger@).len() == self.store.ledger@.len());
        f.put("ledger_len", Json::Unsigned(self.store.ledger.len() as u64));
        f.put("ledger_ok", Json::Bool(self.ledger_holds()));
        f.put("forced", Json::Bool(self.forced_boot()));
        f.put("recovered_partial_line", Json::Bool(self.recovered_partial_line()));
        f.put("stopped_scopes", texts_to_json(&scopes));
        f.put("policies_version", optional_text_to_json(&version));
        f.put_text("state_dir", self.store.state_dir.as_str());
        f.put_text("export_root", root.as_str());
        f.put("web", optional_text_to_json(web));
        assert(f@ =~= boot_info_json(self@, opt(*web))->Object_0);
        f.object()
    }
}

impl<A> RealKernel<A> {
    /// Every passkey, in the order of ids.
    pub fn passkey_list_to_json(&self) -> (j: Json)
        requires
            self.wf(),
        ensures
            j@ == passkey_list_json(self@.store),
    {
        let ps = self.passkeys();
        let mut items = Items::new();
        let mut i: usize = 0;
        while i < ps.len()
            invariant
                i <= ps@.len(),
                items@.len() == i,
                forall|k: int| 0 <= k < i ==> #[trigger] items@[k] == passkey_json(ps@[k]@),
            decreases ps@.len() - i,
        {
            items.add(passkey_to_json(&ps[i]));
            i += 1;
        }
        proof {
            passkeys_are_listed_one_way(self@.store, all(ps@));
        }
        assert(items@ =~= passkey_listing(self@.store).map_values(
            |p: PasskeyRowView| passkey_json(p),
        ));
        items.array()
    }

    /// The last events of the record, as many as are asked for.
    pub fn last_events_to_json(&self, n: u64, chain: &Vec<Json>) -> (j: Json)
        ensures
            j@ == tail_json(self@.store.ledger, n as nat, all(chain@)),
    {
        let len: usize = self.store.ledger.len();
        let from: usize = if len as u64 <= n {
            0
        } else {
            (len as u64 - n) as usize
        };
        let mut r: Vec<LedgerEvent> = Vec::new();
        let mut i: usize = from;
        while i < len
            invariant
                len == self.store.ledger@.len(),
                from <= i <= len,
                r@.len() == i - from,
                forall|j: int|
                    0 <= j < i - from ==> (#[trigger] r@[j])@ == self.store.ledger@[from + j]@,
            decreases len - i,
        {
            r.push(self.store.ledger[i].dup());
            i += 1;
        }
        assert(all(self.store.ledger@).len() == len);
        assert(all(r@) =~= last_events(self@.store.ledger, n as nat));
        event_list_to_json(&r, chain, from)
    }
}

/// A listing of passkeys tells nothing of a credential: it is the same whatever the
/// credentials are.
pub proof fn passkey_listing_has_no_credential(a: PasskeyRowView, b: PasskeyRowView)
    requires
        a.device_id == b.device_id,
        a.enrolled_ms == b.enrolled_ms,
    ensures
        passkey_json(a) == passkey_json(b),
{
}

} // verus!
