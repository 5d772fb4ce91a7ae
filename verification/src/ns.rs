//! The namespace: everything the kernel manages has a path.
use crate::adapter::{strip_prefixes, without_prefixes, ArchAdapter};
use crate::arches::{manifest_of, state_name, state_of, state_reason, ArchEntryView};
use crate::artefacts::envelope_of;
use crate::error::{KernelError, KernelErrorView};
use crate::kernel::{outcome, KernelView, RealKernel};
use crate::listing::{
    arch_listing, arches_are_listed_one_way, in_order, one_order, task_listing,
    tasks_are_listed_one_way,
};
use crate::manifest::{ArchManifest, ArchManifestView};
use crate::model::{all, opt, Duplicate};
use crate::path::{pieces, split_on};
use crate::principal::{Ctx, CtxView};
use crate::store::{BlobEnvelope, BlobEnvelopeView, LedgerEvent, LedgerEventView};
use crate::task::{Task, TaskView};
use crate::tasks::{seen, visible, task_ids};
use crate::text::{cat, same};
use vstd::prelude::*;
use vstd::string::*;

verus! {

/// How many events the tail of the record shows.
pub const LEDGER_TAIL: usize = 50;

/// One arch in the listing of arches.
#[derive(Debug)]
pub struct ArchRow {
    pub arch_id: String,
    pub name: String,
    pub state: String,
    pub reason: Option<String>,
}

/// What an [`ArchRow`] says.
#[verifier::ext_equal]
pub struct ArchRowView {
    pub arch_id: Seq<char>,
    pub name: Seq<char>,
    pub state: Seq<char>,
    pub reason: Option<Seq<char>>,
}

impl View for ArchRow {
    type V = ArchRowView;

    open spec fn view(&self) -> ArchRowView {
        ArchRowView {
            arch_id: self.arch_id@,
            name: self.name@,
            state: self.state@,
            reason: opt(self.reason),
        }
    }
}

/// What a path names.
#[derive(Debug)]
pub enum Entry {
    Dir(Vec<String>),
    Arches(Vec<ArchRow>),
    Arch { manifest: ArchManifest, state: String, reason: Option<String> },
    Task(Task),
    Artefact(BlobEnvelope),
    Device(String),
    LedgerTail(Vec<LedgerEvent>),
}

/// What an [`Entry`] says.
pub enum EntryView {
    Dir(Seq<Seq<char>>),
    Arches(Seq<ArchRowView>),
    Arch { manifest: ArchManifestView, state: Seq<char>, reason: Option<Seq<char>> },
    Task(TaskView),
    Artefact(BlobEnvelopeView),
    Device(Seq<char>),
    LedgerTail(Seq<LedgerEventView>),
}

impl View for Entry {
    type V = EntryView;

    open spec fn view(&self) -> EntryView {
        match self {
            Entry::Dir(names) => EntryView::Dir(all(names@)),
            Entry::Arches(rows) => EntryView::Arches(all(rows@)),
            Entry::Arch { manifest, state, reason } => EntryView::Arch {
                manifest: manifest@,
                state: state@,
                reason: opt(*reason),
            },
            Entry::Task(t) => EntryView::Task(t@),
            Entry::Artefact(e) => EntryView::Artefact(e@),
            Entry::Device(id) => EntryView::Device(id@),
            Entry::LedgerTail(events) => EntryView::LedgerTail(all(events@)),
        }
    }
}

/// Those texts that are not empty.
pub open spec fn nonempty(parts: Seq<Seq<char>>) -> Seq<Seq<char>>
    decreases parts.len(),
{
    if parts.len() == 0 {
        Seq::empty()
    } else {
        let head = nonempty(parts.drop_last());
        if parts.last().len() == 0 {
            head
        } else {
            head.push(parts.last())
        }
    }
}

/// The parts of a path.
pub open spec fn path_parts(path: Seq<char>) -> Seq<Seq<char>> {
    nonempty(pieces(path, '/'))
}

/// The row of an arch.
pub open spec fn arch_row(e: ArchEntryView) -> ArchRowView {
    ArchRowView {
        arch_id: e.arch_id,
        name: e.manifest.name,
        state: state_name(e.state),
        reason: state_reason(e.state),
    }
}

/// The last events of a record.
pub open spec fn tail(events: Seq<LedgerEventView>) -> Seq<LedgerEventView> {
    if events.len() <= LEDGER_TAIL {
        events
    } else {
        events.skip(events.len() - LEDGER_TAIL)
    }
}

/// What stands at the root.
pub open spec fn root_names() -> Seq<Seq<char>> {
    seq!["arches"@, "tasks"@, "artefacts"@, "devices"@, "ledger"@]
}

/// What a path with one part names.
pub open spec fn entry_of_one<A: ArchAdapter>(k: KernelView<A>, ctx: CtxView, part: Seq<char>) -> Option<
    EntryView,
> {
    if part == "arches"@ {
        Some(EntryView::Arches(arch_listing(k).map_values(|e: ArchEntryView| arch_row(e))))
    } else if part == "tasks"@ {
        Some(EntryView::Dir(task_ids(task_listing(k.store, ctx))))
    } else if part == "devices"@ {
        Some(EntryView::Dir(in_order(|id: Seq<char>| k.store.devices.contains_key(id))))
    } else if part == "ledger"@ {
        Some(EntryView::LedgerTail(tail(k.store.ledger)))
    } else {
        None
    }
}

/// The address an artefact is named by, with or without its prefix.
pub open spec fn full_address(hash: Seq<char>) -> Seq<char> {
    "sha256:"@ + without_prefixes(hash, "sha256:"@)
}

/// What is shown of an arch.
pub open spec fn arch_entry<A: ArchAdapter>(k: KernelView<A>, id: Seq<char>) -> Option<EntryView> {
    match state_of(k, id) {
        Some(state) => Some(
            EntryView::Arch {
                manifest: manifest_of(k, id),
                state: state_name(state),
                reason: state_reason(state),
            },
        ),
        None => None,
    }
}

/// What a path with two parts names.
pub open spec fn entry_of_two<A: ArchAdapter>(
    k: KernelView<A>,
    ctx: CtxView,
    dir: Seq<char>,
    name: Seq<char>,
) -> Option<EntryView> {
    if dir == "arches"@ {
        arch_entry(k, name)
    } else if dir == "tasks"@ {
        match seen(k.store, ctx, name) {
            Some(t) => Some(EntryView::Task(t)),
            None => None,
        }
    } else if dir == "artefacts"@ {
        let hash = full_address(name);
        if k.store.blobs.contains_key(hash) {
            Some(EntryView::Artefact(envelope_of(hash, k.store.blobs[hash])))
        } else {
            None
        }
    } else if dir == "devices"@ {
        if k.store.devices.contains_key(name) {
            Some(EntryView::Device(name))
        } else {
            None
        }
    } else {
        None
    }
}

/// What a path names, as `ctx` may see it: nothing that the caller is not cleared for
/// is there, an artefact is never its bytes, and a device never its key.
pub open spec fn entry_at<A: ArchAdapter>(k: KernelView<A>, ctx: CtxView, path: Seq<char>) -> Result<
    EntryView,
    KernelErrorView,
> {
    let parts = path_parts(path);
    let found = if parts.len() == 0 {
        Some(EntryView::Dir(root_names()))
    } else if parts.len() == 1 {
        entry_of_one(k, ctx, parts[0])
    } else if parts.len() == 2 {
        entry_of_two(k, ctx, parts[0], parts[1])
    } else {
        None
    };
    match found {
        Some(e) => Ok(e),
        None => Err(KernelErrorView::NotFound(path)),
    }
}

/// A listing of the record is no longer than the record.
pub proof fn tail_is_no_longer<A: ArchAdapter>(k: KernelView<A>, ctx: CtxView, path: Seq<char>)
    ensures
        entry_at(k, ctx, path) matches Ok(EntryView::LedgerTail(events)) ==> events.len()
            <= k.store.ledger.len(),
{
}

fn parts_of(path: &str) -> (r: Vec<String>)
    ensures
        all(r@) == path_parts(path@),
{
    let ps = split_on(path, '/');
    let ghost views = all(ps@);
    let mut r: Vec<String> = Vec::new();
    let mut i: usize = 0;
    assert(all(r@) =~= nonempty(views.take(0)));
    while i < ps.len()
        invariant
            i <= ps@.len(),
            views == all(ps@),
            all(r@) == nonempty(views.take(i as int)),
        decreases ps@.len() - i,
    {
        assert(views.take(i + 1).drop_last() =~= views.take(i as int));
        assert(views.take(i + 1).last() == ps@[i as int]@);
        if ps[i].as_str().unicode_len() != 0 {
            let ghost was = all(r@);
            r.push(ps[i].dup());
            assert(all(r@) =~= was.push(ps@[i as int]@));
        }
        i += 1;
    }
    assert(views.take(i as int) =~= views);
    r
}

impl<A> RealKernel<A> {
    /// The last events of the record.
    pub fn ledger_tail(&self) -> (r: Vec<LedgerEvent>)
        ensures
            all(r@) == tail(self@.store.ledger),
    {
        let n: usize = self.store.ledger.len();
        let from: usize = if n <= LEDGER_TAIL {
            0
        } else {
            n - LEDGER_TAIL
        };
        let mut r: Vec<LedgerEvent> = Vec::new();
        let mut i: usize = from;
        while i < n
            invariant
                n == self.store.ledger@.len(),
                from <= i <= n,
                r@.len() == i - from,
                forall|j: int|
                    0 <= j < i - from ==> (#[trigger] r@[j])@ == self.store.ledger@[from + j]@,
            decreases n - i,
        {
            r.push(self.store.ledger[i].dup());
            i += 1;
        }
        assert(all(self.store.ledger@).len() == n);
        assert(all(r@) =~= tail(self@.store.ledger));
        r
    }
}

fn list_arches<A: ArchAdapter>(k: &RealKernel<A>) -> (r: Vec<ArchRow>)
    requires
        k.wf(),
    ensures
        all(r@) == arch_listing(k@).map_values(|e: ArchEntryView| arch_row(e)),
{
    let es = k.arch_states();
    let mut r: Vec<ArchRow> = Vec::new();
    let mut i: usize = 0;
    while i < es.len()
        invariant
            i <= es@.len(),
            r@.len() == i,
            forall|j: int| 0 <= j < i ==> (#[trigger] r@[j])@ == arch_row(es@[j]@),
        decreases es@.len() - i,
    {
        let e = &es[i];
        let reason = match e.state.reason() {
            Some(why) => Some(why.to_owned()),
            None => None,
        };
        let row = ArchRow {
            arch_id: e.arch_id.dup(),
            name: e.manifest.name.dup(),
            state: e.state.name().to_owned(),
            reason,
        };
        assert(row@ =~= arch_row(e@));
        r.push(row);
        i += 1;
    }
    proof {
        arches_are_listed_one_way(k@, all(es@));
        assert(all(r@) =~= arch_listing(k@).map_values(|e: ArchEntryView| arch_row(e)));
    }
    r
}

fn list_tasks<A>(k: &RealKernel<A>, ctx: &Ctx) -> (r: Vec<String>)
    requires
        k.wf(),
    ensures
        all(r@) == task_ids(task_listing(k@.store, ctx@)),
{
    let ts = k.tasks(ctx);
    let mut r: Vec<String> = Vec::new();
    let mut i: usize = 0;
    while i < ts.len()
        invariant
            i <= ts@.len(),
            r@.len() == i,
            forall|j: int| 0 <= j < i ==> (#[trigger] r@[j])@ == ts@[j]@.id,
        decreases ts@.len() - i,
    {
        r.push(ts[i].id.dup());
        i += 1;
    }
    proof {
        tasks_are_listed_one_way(k@.store, ctx@, all(ts@));
        assert(all(r@) =~= task_ids(all(ts@)));
    }
    r
}

fn find_arch<A: ArchAdapter>(k: &RealKernel<A>, id: &str) -> (r: Option<Entry>)
    requires
        k.wf(),
    ensures
        opt(r) == arch_entry(k@, id@),
{
    let es = k.arch_states();
    let ghost views = all(es@);
    let mut i: usize = 0;
    while i < es.len()
        invariant
            i <= es@.len(),
            views == all(es@),
            crate::arches::lists_arches(k@, views),
            forall|j: int| 0 <= j < i ==> (#[trigger] views[j]).arch_id != id@,
        decreases es@.len() - i,
    {
        let e = &es[i];
        assert(views[i as int] == es@[i as int]@);
        if same(e.arch_id.as_str(), id) {
            let reason = match e.state.reason() {
                Some(why) => Some(why.to_owned()),
                None => None,
            };
            return Some(
                Entry::Arch {
                    manifest: e.manifest.dup(),
                    state: e.state.name().to_owned(),
                    reason,
                },
            );
        }
        i += 1;
    }
    proof {
        if state_of(k@, id@) is Some {
            let ids = crate::arches::entry_ids(views);
            assert(ids.contains(id@));
            let j = ids.index_of(id@);
            assert(views[j].arch_id == id@);
        }
    }
    None
}

fn find_one<A: ArchAdapter>(k: &RealKernel<A>, ctx: &Ctx, part: &str) -> (r: Option<Entry>)
    requires
        k.wf(),
    ensures
        opt(r) == entry_of_one(k@, ctx@, part@),
{
    if same(part, "arches") {
        Some(Entry::Arches(list_arches(k)))
    } else if same(part, "tasks") {
        Some(Entry::Dir(list_tasks(k, ctx)))
    } else if same(part, "devices") {
        let ids = k.store.devices.key_list();
        proof {
            let v = k@;
            k.store.devices.keys_are_domain();
            one_order(all(ids@), |id: Seq<char>| v.store.devices.contains_key(id));
        }
        Some(Entry::Dir(ids))
    } else if same(part, "ledger") {
        Some(Entry::LedgerTail(k.ledger_tail()))
    } else {
        None
    }
}

fn find_two<A: ArchAdapter>(k: &RealKernel<A>, ctx: &Ctx, dir: &str, name: &str) -> (r: Option<Entry>)
    requires
        k.wf(),
    ensures
        opt(r) == entry_of_two(k@, ctx@, dir@, name@),
{
    if same(dir, "arches") {
        find_arch(k, name)
    } else if same(dir, "tasks") {
        match k.task(ctx, name) {
            Some(t) => Some(Entry::Task(t)),
            None => None,
        }
    } else if same(dir, "artefacts") {
        let bare = strip_prefixes(name, "sha256:");
        let hash = cat("sha256:", bare.as_str());
        match k.envelope(hash.as_str()) {
            Some(e) => Some(Entry::Artefact(e)),
            None => None,
        }
    } else if same(dir, "devices") {
        if k.store.devices.has(name) {
            Some(Entry::Device(name.to_owned()))
        } else {
            None
        }
    } else {
        None
    }
}

/// What a path names, as `ctx` may see it.
pub fn resolve<A: ArchAdapter>(k: &RealKernel<A>, ctx: &Ctx, path: &str) -> (r: Result<
    Entry,
    KernelError,
>)
    requires
        k.wf(),
    ensures
        outcome(r) == entry_at(k@, ctx@, path@),
{
    let parts = parts_of(path);
    assert(all(parts@).len() == parts@.len());
    let found = if parts.len() == 0 {
        let mut names: Vec<String> = Vec::new();
        names.push("arches".to_owned());
        names.push("tasks".to_owned());
        names.push("artefacts".to_owned());
        names.push("devices".to_owned());
        names.push("ledger".to_owned());
        assert(all(names@) =~= root_names());
        Some(Entry::Dir(names))
    } else if parts.len() == 1 {
        assert(all(parts@)[0] == parts@[0]@);
        find_one(k, ctx, parts[0].as_str())
    } else if parts.len() == 2 {
        assert(all(parts@)[0] == parts@[0]@);
        assert(all(parts@)[1] == parts@[1]@);
        find_two(k, ctx, parts[0].as_str(), parts[1].as_str())
    } else {
        None
    };
    match found {
        Some(e) => Ok(e),
        None => Err(KernelError::NotFound(path.to_owned())),
    }
}

/// What is added behind a separator is one more piece.
pub proof fn last_piece_grows(head: Seq<char>, id: Seq<char>)
    requires
        forall|i: int| 0 <= i < id.len() ==> #[trigger] id[i] != '/',
        pieces(head, '/').len() > 0,
        pieces(head, '/').last().len() == 0,
    ensures
        pieces(head + id, '/') == pieces(head, '/').drop_last().push(id),
    decreases id.len(),
{
    let ps = pieces(head, '/');
    if id.len() == 0 {
        assert(head + id =~= head);
        assert(ps.last() =~= id);
        assert(ps =~= ps.drop_last().push(id));
    } else {
        let short = id.drop_last();
        assert forall|i: int| 0 <= i < short.len() implies #[trigger] short[i] != '/' by {
            assert(id[i] != '/');
        }
        last_piece_grows(head, short);
        assert((head + id).drop_last() =~= head + short);
        assert((head + id).last() == id.last());
        let grown = ps.drop_last().push(short);
        assert(grown.drop_last() =~= ps.drop_last());
        assert(short.push(id.last()) =~= id);
    }
}

proof fn parts_of_a_task_path(id: Seq<char>)
    requires
        id.len() > 0,
        forall|i: int| 0 <= i < id.len() ==> #[trigger] id[i] != '/',
    ensures
        path_parts("/tasks/"@ + id) == seq!["tasks"@, id],
{
    reveal_strlit("/tasks/");
    reveal_strlit("tasks");
    reveal_with_fuel(pieces, 8);
    reveal_with_fuel(nonempty, 4);
    let none = Seq::<char>::empty();
    let slash = seq!['/'];
    let word = "tasks"@;
    let (first, second) = (slash + word, slash + word + slash);
    assert(pieces(none, '/') =~= seq![none]);
    assert(slash.drop_last() =~= none);
    assert(pieces(slash, '/') =~= seq![none, none]);
    last_piece_grows(slash, word);
    assert(pieces(first, '/') =~= seq![none, word]);
    assert(second.drop_last() =~= first);
    assert(pieces(second, '/') =~= seq![none, word, none]);
    assert("/tasks/"@ =~= second);
    last_piece_grows(second, id);
    let ps = seq![none, word, id];
    assert(pieces(second + id, '/') =~= ps);
    assert(ps.drop_last() =~= seq![none, word]);
    assert(ps.drop_last().drop_last() =~= seq![none]);
    assert(seq![none].drop_last() =~= Seq::<Seq<char>>::empty());
    assert(nonempty(seq![none]) =~= Seq::<Seq<char>>::empty());
    assert(nonempty(seq![none, word]) =~= seq![word]);
    assert(nonempty(ps) =~= seq![word, id]);
}

/// The path of a task above the caller's clearance is not found, and tells nothing more
/// than the path of a task that is not there.
pub proof fn hidden_task_has_no_path<A: ArchAdapter>(k: KernelView<A>, ctx: CtxView, id: Seq<char>)
    requires
        id.len() > 0,
        forall|i: int| 0 <= i < id.len() ==> #[trigger] id[i] != '/',
        seen(k.store, ctx, id) is None,
    ensures
        entry_at(k, ctx, "/tasks/"@ + id) == Err::<EntryView, KernelErrorView>(
            KernelErrorView::NotFound("/tasks/"@ + id),
        ),
{
    parts_of_a_task_path(id);
    reveal_strlit("arches");
    reveal_strlit("tasks");
    assert("arches"@.len() != "tasks"@.len());
}

/// A path never names the bytes of an artefact, the key of a device, or a task that the
/// caller may not see.
pub proof fn namespace_hands_out_no_secrets<A: ArchAdapter>(
    k: KernelView<A>,
    ctx: CtxView,
    path: Seq<char>,
)
    ensures
        match entry_at(k, ctx, path) {
            Ok(EntryView::Artefact(e)) => k.store.blobs.contains_key(e.hash) && e == envelope_of(
                e.hash,
                k.store.blobs[e.hash],
            ),
            Ok(EntryView::Device(id)) => k.store.devices.contains_key(id),
            Ok(EntryView::Task(t)) => visible(k.store, ctx, t),
            _ => true,
        },
{
}

} // verus!
